//! The configuration the engine is driven by: the ordered command list, the
//! run-on-change flag and the window title, consumed as plain values. How it
//! is persisted is a collaborator's concern; what stands here is the default
//! and the decision taken once a load attempt has come back.

use vstd::prelude::*;

verus! {

/// The engine's configuration, as plain values.
#[derive(Clone)]
pub struct Config {
    pub run_commands_on_change: bool,
    pub commands: Vec<String>,
    pub title: String,
}

impl Default for Config {
    /// The configuration used when none is persisted: run only on explicit
    /// activation, pipe the input to `cat` and `wc`, title `Putput`.
    fn default() -> (c: Config)
        ensures
            c.run_commands_on_change == false,
            c.commands@.len() == 2,
            c.commands@[0]@ == "cat"@,
            c.commands@[1]@ == "wc"@,
            c.title@ == "Putput"@,
    {
        let mut commands: Vec<String> = Vec::new();
        commands.push("cat".to_owned());
        commands.push("wc".to_owned());
        Config { run_commands_on_change: false, commands, title: "Putput".to_owned() }
    }
}

/// The decision taken after a load attempt: a configuration that was read
/// and parsed is used as it stands and nothing is written back; a missing or
/// unparsable one is replaced by the default, which must then be persisted.
/// The second component says whether to write the default back.
pub fn resolve_loaded(parsed: Option<Config>) -> (r: (Config, bool))
    ensures
        parsed matches Some(c) ==> r.0 == c && r.1 == false,
        parsed is None ==> {
            &&& r.0.run_commands_on_change == false
            &&& r.0.commands@.len() == 2
            &&& r.0.commands@[0]@ == "cat"@
            &&& r.0.commands@[1]@ == "wc"@
            &&& r.0.title@ == "Putput"@
            &&& r.1 == true
        },
{
    match parsed {
        Some(c) => (c, false),
        None => (Config::default(), true),
    }
}

} // verus!
