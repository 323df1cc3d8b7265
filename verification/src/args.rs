//! Command-line options: how long each kernel runs, which CPUs are tested,
//! where the reports go, and whether the HTML report is opened.
use vstd::prelude::*;
use crate::cpu_list::{cpu_list_spec, parse_core_list, strictly_increasing};
use crate::text::{chars_of, parse_u64_chars, parse_u64_spec, str_equal, string_from};

verus! {

/// The settings of one run.
pub struct Config {
    /// Time per main kernel, in milliseconds.
    pub duration_ms: u64,
    /// Time per acceleration kernel, in milliseconds.
    pub accel_duration_ms: u64,
    /// The CPUs to test, sorted; `None` for all of them.
    pub cores: Option<Vec<usize>>,
    /// Path of the HTML report.
    pub output: String,
    /// Path of the JSON results.
    pub json: String,
    /// Whether the HTML report is opened when the run ends.
    pub open: bool,
    /// Whether the short smoke run was asked for.
    pub quick: bool,
}

/// The mathematical content of a [`Config`]; the CPU list is kept as a set
/// (the list itself is always sorted).
pub struct ConfigSpec {
    pub duration_ms: u64,
    pub accel_duration_ms: u64,
    pub cores: Option<Set<usize>>,
    pub output: Seq<char>,
    pub json: Seq<char>,
    pub open: bool,
    pub quick: bool,
}

impl View for Config {
    type V = ConfigSpec;

    open spec fn view(&self) -> ConfigSpec {
        ConfigSpec {
            duration_ms: self.duration_ms,
            accel_duration_ms: self.accel_duration_ms,
            cores: match self.cores {
                Some(v) => Some(v@.to_set()),
                None => None,
            },
            output: self.output@,
            json: self.json@,
            open: self.open,
            quick: self.quick,
        }
    }
}

/// The settings when no option is given.
pub open spec fn default_config() -> ConfigSpec {
    ConfigSpec {
        duration_ms: 180,
        accel_duration_ms: 60,
        cores: None,
        output: "coretester-report.html"@,
        json: "coretester-results.json"@,
        open: true,
        quick: false,
    }
}

/// Whether `a` is an option that takes the next argument as its value.
pub open spec fn takes_value(a: Seq<char>) -> bool {
    a == "--duration-ms"@ || a == "--cores"@ || a == "--output"@ || a == "--json"@
}

/// `cfg` after the option `flag` with its `value`.
pub open spec fn apply_value(flag: Seq<char>, value: Seq<char>, cfg: ConfigSpec, total: usize) -> Result<
    ConfigSpec,
    Seq<char>,
> {
    if flag == "--duration-ms"@ {
        match parse_u64_spec(value) {
            None => Err("duration must be an integer"@),
            Some(ms) => if !(10 <= ms && ms <= 10_000) {
                Err("duration must be 10..10000 ms"@)
            } else {
                Ok(
                    ConfigSpec {
                        duration_ms: ms as u64,
                        accel_duration_ms: (if ms / 3 > 10 {
                            ms / 3
                        } else {
                            10
                        }) as u64,
                        ..cfg
                    },
                )
            },
        }
    } else if flag == "--cores"@ {
        match cpu_list_spec(value, total) {
            Err(m) => Err(m),
            Ok(s) => Ok(ConfigSpec { cores: Some(s), ..cfg }),
        }
    } else if flag == "--output"@ {
        Ok(ConfigSpec { output: value, ..cfg })
    } else {
        Ok(ConfigSpec { json: value, ..cfg })
    }
}

/// The outcome of reading `args[i..]` with the settings `cfg` so far:
/// `Ok(None)` when help is asked for, the final settings, or the message of
/// the first rejected option.
pub open spec fn parse_args_from(args: Seq<Seq<char>>, i: nat, cfg: ConfigSpec, total: usize) -> Result<
    Option<ConfigSpec>,
    Seq<char>,
>
    decreases args.len() - i,
{
    if i >= args.len() {
        Ok(Some(cfg))
    } else {
        let a = args[i as int];
        if a == "-h"@ || a == "--help"@ {
            Ok(None)
        } else if a == "--quick"@ {
            parse_args_from(
                args,
                i + 1,
                ConfigSpec { quick: true, duration_ms: 35, accel_duration_ms: 15, ..cfg },
                total,
            )
        } else if a == "--no-open"@ {
            parse_args_from(args, i + 1, ConfigSpec { open: false, ..cfg }, total)
        } else if takes_value(a) {
            if i + 1 >= args.len() {
                Err(a + " requires a value"@)
            } else {
                match apply_value(a, args[i + 1 as int], cfg, total) {
                    Err(m) => Err(m),
                    Ok(c) => parse_args_from(args, i + 2, c, total),
                }
            }
        } else {
            Err("unknown option: "@ + a)
        }
    }
}

/// The outcome of the whole argument list.
pub open spec fn parse_args_spec(args: Seq<Seq<char>>, total: usize) -> Result<
    Option<ConfigSpec>,
    Seq<char>,
> {
    parse_args_from(args, 0, default_config(), total)
}

pub open spec fn cores_sorted(c: &Config) -> bool {
    match c.cores {
        Some(v) => strictly_increasing(v@),
        None => true,
    }
}

/// The settings with no option given.
pub fn default_settings() -> (c: Config)
    ensures
        c@ == default_config(),
{
    Config {
        duration_ms: 180,
        accel_duration_ms: 60,
        cores: None,
        output: string_from("coretester-report.html"),
        json: string_from("coretester-results.json"),
        open: true,
        quick: false,
    }
}

/// Applies one option that takes a value.
fn apply_value_exec(flag: &String, value: &String, cfg: Config, total: usize) -> (r: Result<
    Config,
    String,
>)
    requires
        takes_value(flag@),
        cores_sorted(&cfg),
    ensures
        match apply_value(flag@, value@, cfg@, total) {
            Ok(c) => r is Ok && r->Ok_0@ == c && cores_sorted(&r->Ok_0),
            Err(m) => r is Err && r->Err_0@ == m,
        },
{
    let mut cfg = cfg;
    if str_equal(flag.as_str(), "--duration-ms") {
        let v = chars_of(value.as_str());
        assert(v@.subrange(0, v@.len() as int) == v@);
        match parse_u64_chars(&v, 0, v.len()) {
            None => Err(string_from("duration must be an integer")),
            Some(ms) => {
                if !(10 <= ms && ms <= 10_000) {
                    Err(string_from("duration must be 10..10000 ms"))
                } else {
                    cfg.duration_ms = ms;
                    cfg.accel_duration_ms = if ms / 3 > 10 {
                        ms / 3
                    } else {
                        10
                    };
                    Ok(cfg)
                }
            },
        }
    } else if str_equal(flag.as_str(), "--cores") {
        match parse_core_list(value.as_str(), total) {
            Err(m) => Err(m),
            Ok(list) => {
                cfg.cores = Some(list);
                Ok(cfg)
            },
        }
    } else if str_equal(flag.as_str(), "--output") {
        cfg.output = value.clone();
        Ok(cfg)
    } else {
        cfg.json = value.clone();
        Ok(cfg)
    }
}

/// Reads the command-line arguments (without the program name) for a
/// machine with `total` logical CPUs: `Ok(None)` when help is asked for,
/// `Ok(Some(settings))`, or the message of the first rejected option.
pub fn parse_args(args: &Vec<String>, total: usize) -> (r: Result<Option<Config>, String>)
    ensures
        match parse_args_spec(args.deep_view(), total) {
            Ok(None) => r == Ok::<Option<Config>, String>(None),
            Ok(Some(c)) => r is Ok && r->Ok_0 is Some && r->Ok_0->Some_0@ == c && cores_sorted(
                &r->Ok_0->Some_0,
            ),
            Err(m) => r is Err && r->Err_0@ == m,
        },
{
    let ghost a = args.deep_view();
    let mut cfg = default_settings();
    let mut i: usize = 0;
    while i < args.len()
        invariant
            a == args.deep_view(),
            i <= args.len(),
            cores_sorted(&cfg),
            parse_args_spec(a, total) == parse_args_from(a, i as nat, cfg@, total),
        decreases args.len() - i,
    {
        let arg = &args[i];
        assert(arg@ == a[i as int]);
        if str_equal(arg.as_str(), "-h") || str_equal(arg.as_str(), "--help") {
            return Ok(None);
        } else if str_equal(arg.as_str(), "--quick") {
            cfg.quick = true;
            cfg.duration_ms = 35;
            cfg.accel_duration_ms = 15;
        } else if str_equal(arg.as_str(), "--no-open") {
            cfg.open = false;
        } else if str_equal(arg.as_str(), "--duration-ms") || str_equal(arg.as_str(), "--cores")
            || str_equal(arg.as_str(), "--output") || str_equal(arg.as_str(), "--json") {
            if i + 1 >= args.len() {
                let mut m = arg.clone();
                m.append(" requires a value");
                return Err(m);
            }
            let value = &args[i + 1];
            assert(value@ == a[i + 1]);
            match apply_value_exec(arg, value, cfg, total) {
                Err(m) => {
                    return Err(m);
                },
                Ok(c) => {
                    cfg = c;
                },
            }
            i += 1;
        } else {
            let mut m = string_from("unknown option: ");
            m.append(arg.as_str());
            return Err(m);
        }
        i += 1;
    }
    Ok(Some(cfg))
}

/// The kernel durations stay in the accepted range: 10 ms up to the main
/// duration for acceleration, at most 10 s for the main kernels.
pub open spec fn durations_sane(c: ConfigSpec) -> bool {
    10 <= c.accel_duration_ms <= c.duration_ms <= 10_000
}

proof fn lemma_durations_from(args: Seq<Seq<char>>, i: nat, cfg: ConfigSpec, total: usize)
    requires
        durations_sane(cfg),
    ensures
        parse_args_from(args, i, cfg, total) matches Ok(Some(c)) ==> durations_sane(c),
    decreases args.len() - i,
{
    if i < args.len() {
        let a = args[i as int];
        if a == "-h"@ || a == "--help"@ {
        } else if a == "--quick"@ {
            lemma_durations_from(
                args,
                i + 1,
                ConfigSpec { quick: true, duration_ms: 35, accel_duration_ms: 15, ..cfg },
                total,
            );
        } else if a == "--no-open"@ {
            lemma_durations_from(args, i + 1, ConfigSpec { open: false, ..cfg }, total);
        } else if takes_value(a) && i + 1 < args.len() {
            if let Ok(c) = apply_value(a, args[i + 1 as int], cfg, total) {
                lemma_durations_from(args, i + 2, c, total);
            }
        }
    }
}

/// Every accepted command line yields durations in the accepted range.
pub proof fn lemma_accepted_durations(args: Seq<Seq<char>>, total: usize)
    ensures
        parse_args_spec(args, total) matches Ok(Some(c)) ==> durations_sane(c),
{
    lemma_durations_from(args, 0, default_config(), total);
}

/// Whether `--no-open` is read as an option when the arguments from `i` on
/// are scanned, the argument after an option that takes a value being
/// skipped as that value.
pub open spec fn no_open_read(args: Seq<Seq<char>>, i: nat) -> bool
    decreases args.len() + 1 - i,
{
    if i >= args.len() {
        false
    } else if args[i as int] == "--no-open"@ {
        true
    } else if takes_value(args[i as int]) {
        no_open_read(args, i + 2)
    } else {
        no_open_read(args, i + 1)
    }
}

/// The value of the last option `opt` read from `i` on, if there is one
/// (values of options are skipped as in [`no_open_read`]).
pub open spec fn last_value(args: Seq<Seq<char>>, i: nat, opt: Seq<char>) -> Option<Seq<char>>
    decreases args.len() + 1 - i,
{
    if i >= args.len() {
        None
    } else if takes_value(args[i as int]) {
        match last_value(args, i + 2, opt) {
            Some(v) => Some(v),
            None => if args[i as int] == opt && i + 1 < args.len() {
                Some(args[i + 1 as int])
            } else {
                None
            },
        }
    } else {
        last_value(args, i + 1, opt)
    }
}

/// `v` if there is a value, else `d`.
pub open spec fn value_or(v: Option<Seq<char>>, d: Seq<char>) -> Seq<char> {
    match v {
        Some(x) => x,
        None => d,
    }
}

/// Whether `--quick` is read as an option from `i` on.
pub open spec fn quick_read(args: Seq<Seq<char>>, i: nat) -> bool
    decreases args.len() + 1 - i,
{
    if i >= args.len() {
        false
    } else if args[i as int] == "--quick"@ {
        true
    } else if takes_value(args[i as int]) {
        quick_read(args, i + 2)
    } else {
        quick_read(args, i + 1)
    }
}

proof fn lemma_option_words()
    ensures
        "--quick"@ != "--no-open"@,
        !takes_value("--quick"@),
        !takes_value("--no-open"@),
        "--output"@ != "--duration-ms"@,
        "--output"@ != "--cores"@,
        "--output"@ != "--json"@,
        "--json"@ != "--duration-ms"@,
        "--json"@ != "--cores"@,
        "--cores"@ != "--duration-ms"@,
{
    reveal_strlit("--quick");
    reveal_strlit("--no-open");
    reveal_strlit("--duration-ms");
    reveal_strlit("--cores");
    reveal_strlit("--output");
    reveal_strlit("--json");
    assert("--quick"@[2] != "--cores"@[2]);
    assert("--output"@[2] != "--json"@[2]);
    assert("--no-open"@.len() != "--duration-ms"@.len());
    assert("--no-open"@.len() != "--cores"@.len());
    assert("--no-open"@.len() != "--output"@.len());
    assert("--no-open"@.len() != "--json"@.len());
}

proof fn lemma_flags_from(args: Seq<Seq<char>>, i: nat, cfg: ConfigSpec, total: usize)
    ensures
        parse_args_from(args, i, cfg, total) matches Ok(Some(c)) ==> {
            &&& c.open == (cfg.open && !no_open_read(args, i))
            &&& c.output == value_or(last_value(args, i, "--output"@), cfg.output)
            &&& c.json == value_or(last_value(args, i, "--json"@), cfg.json)
            &&& c.cores == match last_value(args, i, "--cores"@) {
                Some(v) => Some(cpu_list_spec(v, total)->Ok_0),
                None => cfg.cores,
            }
            &&& c.quick == (cfg.quick || quick_read(args, i))
        },
    decreases args.len() - i,
{
    lemma_option_words();
    if i < args.len() {
        let a = args[i as int];
        if a == "-h"@ || a == "--help"@ {
        } else if a == "--quick"@ {
            lemma_flags_from(
                args,
                i + 1,
                ConfigSpec { quick: true, duration_ms: 35, accel_duration_ms: 15, ..cfg },
                total,
            );
        } else if a == "--no-open"@ {
            lemma_flags_from(args, i + 1, ConfigSpec { open: false, ..cfg }, total);
        } else if takes_value(a) && i + 1 < args.len() {
            if let Ok(c) = apply_value(a, args[i + 1 as int], cfg, total) {
                lemma_flags_from(args, i + 2, c, total);
            }
        }
    }
}

/// Each option sets only its own setting: for every accepted command line,
/// the report is opened exactly when no `--no-open` is among the options
/// read; the report's path, the results' path and the CPU list are those of
/// the last `--output`, `--json` and `--cores` (the defaults without one);
/// and the run is short exactly when `--quick` is among the options read.
pub proof fn lemma_accepted_flags(args: Seq<Seq<char>>, total: usize)
    ensures
        parse_args_spec(args, total) matches Ok(Some(c)) ==> {
            &&& c.open == !no_open_read(args, 0)
            &&& c.output == value_or(last_value(args, 0, "--output"@), "coretester-report.html"@)
            &&& c.json == value_or(last_value(args, 0, "--json"@), "coretester-results.json"@)
            &&& c.cores == match last_value(args, 0, "--cores"@) {
                Some(v) => Some(cpu_list_spec(v, total)->Ok_0),
                None => None,
            }
            &&& c.quick == quick_read(args, 0)
        },
{
    lemma_flags_from(args, 0, default_config(), total);
}

} // verus!
