use vstd::prelude::*;

verus! {

/// Value of a command option, as far as the parameters read it.
#[derive(Debug, Clone, PartialEq, Eq)]
pub enum OptionValue {
    Integer(i64),
    Boolean(bool),
    Other,
}

/// A named option of the command that starts a simulation.
#[derive(Debug, Clone)]
pub struct CommandOption {
    pub name: String,
    pub value: OptionValue,
}

/// Parameters of one simulation.
#[derive(Debug, Clone, Copy)]
pub struct SimConfig {
    pub defense_min: i32,
    pub defense_max: i32,
    pub tdg_min: i32,
    pub tdg_max: i32,
    pub min_def: i32,
    pub nb_drapo: i32,
    pub day: i32,
    pub iterations: u32,
    pub points: u32,
    pub is_reactor_built: bool,
}

/// Configurations that no simulation can run on.
#[derive(Debug, Clone, Copy, PartialEq, Eq)]
pub enum ConfigurationError {
    /// Fewer than two sweep points, no iterations, or `defense_min > defense_max`.
    InvalidConfiguration,
}

/// Whether a simulation can run on `c`.
pub open spec fn config_valid(c: SimConfig) -> bool {
    c.points >= 2 && c.iterations >= 1 && c.defense_min <= c.defense_max
}

/// The parameters before any option is read.
pub open spec fn default_config() -> SimConfig {
    SimConfig {
        defense_min: 0,
        defense_max: 0,
        tdg_min: 0,
        tdg_max: 0,
        min_def: 0,
        nb_drapo: 0,
        day: 1,
        iterations: 10000,
        points: 10000,
        is_reactor_built: false,
    }
}

/// An integer option's value, or `fallback` when it holds none.
pub open spec fn int_or(v: OptionValue, fallback: int) -> int {
    match v {
        OptionValue::Integer(i) => i as int,
        _ => fallback,
    }
}

/// `c` with one option applied; an unknown name changes nothing.
pub open spec fn apply_option(c: SimConfig, o: CommandOption) -> SimConfig {
    let n = o.name@;
    if n == "defense_min"@ {
        SimConfig { defense_min: int_or(o.value, 0) as i32, ..c }
    } else if n == "defense_max"@ {
        SimConfig { defense_max: int_or(o.value, 0) as i32, ..c }
    } else if n == "tdg_min"@ {
        SimConfig { tdg_min: int_or(o.value, 0) as i32, ..c }
    } else if n == "tdg_max"@ {
        SimConfig { tdg_max: int_or(o.value, 0) as i32, ..c }
    } else if n == "min_def"@ {
        SimConfig { min_def: int_or(o.value, 0) as i32, ..c }
    } else if n == "nb_drapo"@ {
        SimConfig { nb_drapo: int_or(o.value, 0) as i32, ..c }
    } else if n == "day"@ {
        SimConfig { day: int_or(o.value, 1) as i32, ..c }
    } else if n == "iterations"@ {
        SimConfig { iterations: int_or(o.value, 10000) as u32, ..c }
    } else if n == "points"@ {
        SimConfig { points: int_or(o.value, 10) as u32, ..c }
    } else if n == "reactor"@ {
        SimConfig {
            is_reactor_built: match o.value {
                OptionValue::Boolean(b) => b,
                _ => false,
            },
            ..c
        }
    } else {
        c
    }
}

/// The parameters that a list of options gives, later options overriding
/// earlier ones.
pub open spec fn config_from_spec(options: Seq<CommandOption>) -> SimConfig
    decreases options.len(),
{
    if options.len() == 0 {
        default_config()
    } else {
        apply_option(config_from_spec(options.drop_last()), options.last())
    }
}

fn name_is(name: &String, key: &str) -> (r: bool)
    ensures
        r == (name@ == key@),
{
    let k: String = key.to_owned();
    name.eq(&k)
}

fn int_value(v: &OptionValue, fallback: i64) -> (r: i64)
    ensures
        r as int == int_or(*v, fallback as int),
{
    match v {
        OptionValue::Integer(i) => *i,
        _ => fallback,
    }
}

impl SimConfig {
    /// Reads the parameters from command options.
    pub fn from_options(options: &Vec<CommandOption>) -> (r: SimConfig)
        ensures
            r == config_from_spec(options@),
    {
        let mut c = SimConfig {
            defense_min: 0,
            defense_max: 0,
            tdg_min: 0,
            tdg_max: 0,
            min_def: 0,
            nb_drapo: 0,
            day: 1,
            iterations: 10000,
            points: 10000,
            is_reactor_built: false,
        };
        let mut i: usize = 0;
        while i < options.len()
            invariant
                i <= options.len(),
                c == config_from_spec(options@.take(i as int)),
            decreases options.len() - i,
        {
            proof {
                assert(options@.take(i + 1).drop_last() =~= options@.take(i as int));
            }
            let o = &options[i];
            let v = &o.value;
            if name_is(&o.name, "defense_min") {
                c.defense_min = int_value(v, 0) as i32;
            } else if name_is(&o.name, "defense_max") {
                c.defense_max = int_value(v, 0) as i32;
            } else if name_is(&o.name, "tdg_min") {
                c.tdg_min = int_value(v, 0) as i32;
            } else if name_is(&o.name, "tdg_max") {
                c.tdg_max = int_value(v, 0) as i32;
            } else if name_is(&o.name, "min_def") {
                c.min_def = int_value(v, 0) as i32;
            } else if name_is(&o.name, "nb_drapo") {
                c.nb_drapo = int_value(v, 0) as i32;
            } else if name_is(&o.name, "day") {
                c.day = int_value(v, 1) as i32;
            } else if name_is(&o.name, "iterations") {
                c.iterations = int_value(v, 10000) as u32;
            } else if name_is(&o.name, "points") {
                c.points = int_value(v, 10) as u32;
            } else if name_is(&o.name, "reactor") {
                c.is_reactor_built = match v {
                    OptionValue::Boolean(b) => *b,
                    _ => false,
                };
            }
            i = i + 1;
        }
        proof {
            assert(options@.take(options.len() as int) =~= options@);
        }
        c
    }

    /// `(defense_min, defense_max)`.
    pub fn defense_range(&self) -> (r: (i32, i32))
        ensures
            r == (self.defense_min, self.defense_max),
    {
        (self.defense_min, self.defense_max)
    }

    /// `(tdg_min, tdg_max)`.
    pub fn tdg_interval(&self) -> (r: (i32, i32))
        ensures
            r == (self.tdg_min, self.tdg_max),
    {
        (self.tdg_min, self.tdg_max)
    }
}

} // verus!
