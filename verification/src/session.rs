use vstd::prelude::*;
use vstd::string::*;
use crate::command::{parse_spec, Command, CommandV};
use crate::plugin::{findings_view, Finding, Module, Request};
use crate::store::display_of;

verus! {

/// The no-active-module condition: a command needed a module, none is loaded.
pub struct NoModule;

/// The operation that found no module loaded.
pub enum Op {
    SetOption,
    ShowOptions,
    Help,
    Run,
}

/// One rendered line of the options table: the required marker, the key, its
/// current value (or the sentinel "null"), and the description.
pub struct OptionDisplay {
    pub required: bool,
    pub key: String,
    pub value: String,
    pub description: String,
}

/// Whether `rows` is the options table of module `m`: its declared
/// parameters in declaration order, each with its displayed value.
pub open spec fn table_of<M: Module>(m: M, rows: Seq<OptionDisplay>) -> bool {
    &&& rows.len() == m.decl().len()
    &&& forall|i: int|
        0 <= i < rows.len() ==> {
            let d = #[trigger] rows[i];
            let o = m.decl()[i];
            d.key@ == o.key && d.description@ == o.description && d.required == !o.optional
                && d.value@ == display_of(m.cfg(), o.key)
        }
}

/// What one step of the command loop asks of the host, or shows.
pub enum Reply {
    /// Nothing to do or show: an empty `load` path, or a completed `set`.
    Silent,
    /// Leave the loop.
    Quit,
    /// Load the module at this path, then hand the outcome to `apply_load`.
    LoadRequested(String),
    /// The command needed an active module and none is loaded.
    NoActive(Op),
    /// The options table to display.
    Table(Vec<OptionDisplay>),
    /// The module's self-description, verbatim.
    HelpText(String),
    /// The active module asks the host to perform this request.
    Launched(Request),
    /// The active module reported that it cannot run.
    RunFailed(String),
    /// The line did not parse; the message to display.
    BadCommand(String),
}

/// Law: however a module's configuration was reached from `cfg0` by a
/// sequence of `set key value` steps, its options table displays, for each
/// declared parameter, the last value set for that key — or what `cfg0`
/// displayed for it when the sequence never set it (on a fresh module, the
/// sentinel "null"). `set_option` and `step` make each `set` an insert into
/// the configuration; this carries that to whole command sequences.
pub proof fn lemma_table_shows_last_set<M: Module>(
    m: M,
    rows: Seq<OptionDisplay>,
    cfg0: Map<Seq<char>, Seq<char>>,
    ps: Seq<(Seq<char>, Seq<char>)>,
    i: int,
)
    requires
        table_of(m, rows),
        m.cfg() == crate::store::apply_sets(cfg0, ps),
        0 <= i < rows.len(),
    ensures
        rows[i].value@ == match crate::store::last_set(ps, m.decl()[i].key) {
            Some(v) => v,
            None => display_of(cfg0, m.decl()[i].key),
        },
{
    crate::store::lemma_last_set_wins(cfg0, ps, m.decl()[i].key);
}

/// A module path with every home shorthand `~` replaced by `home`.
pub open spec fn expand_tilde(s: Seq<char>, home: Seq<char>) -> Seq<char>
    decreases s.len(),
{
    if s.len() == 0 {
        Seq::empty()
    } else {
        expand_tilde(s.drop_last(), home) + (if s.last() == '~' {
            home
        } else {
            seq![s.last()]
        })
    }
}

/// Expand the home shorthand in a module path before the host loads it: the
/// host passes the home directory it resolved, and every `~` becomes it.
pub fn expand_home(path: &str, home: &str) -> (r: String)
    ensures
        r@ == expand_tilde(path@, home@),
{
    let n = path.unicode_len();
    let mut out = String::new();
    let mut i: usize = 0;
    proof {
        assert(path@.take(0) =~= Seq::<char>::empty());
    }
    while i < n
        invariant
            i <= n,
            n == path@.len(),
            out@ == expand_tilde(path@.take(i as int), home@),
        decreases n - i,
    {
        proof {
            assert(path@.take(i as int + 1).drop_last() =~= path@.take(i as int));
            assert(path@.take(i as int + 1).last() == path@[i as int]);
        }
        if path.get_char(i) == '~' {
            out.append(home);
        } else {
            let piece = path.substring_char(i, i + 1);
            proof {
                assert(piece@ =~= seq![path@[i as int]]);
            }
            out.append(piece);
        }
        i = i + 1;
    }
    proof {
        assert(path@.take(n as int) =~= path@);
    }
    out
}

/// The host's record of the one active module. The module value owns
/// everything with its lifetime — for a dynamically loaded module, the
/// library mapping together with the instance it produced — so a load
/// replaces or drops the whole of it at once and no command can see a mixed
/// state.
pub struct Session<M> {
    pub active: Option<M>,
}

impl<M: Module> Session<M> {
    /// A session with nothing loaded.
    pub fn new() -> (r: Session<M>)
        ensures
            r.active is None,
    {
        Session { active: None }
    }

    /// Take the outcome of the host's attempt to load a module. Success
    /// replaces the whole active module atomically; failure hands the reason
    /// back and leaves the session exactly as it was.
    pub fn apply_load(&mut self, outcome: Result<M, String>) -> (r: Result<(), String>)
        ensures
            outcome is Ok ==> final (self).active == Some(outcome->Ok_0) && r is Ok,
            outcome is Err ==> *final (self) == *old(self) && r is Err && r->Err_0
                == outcome->Err_0,
    {
        match outcome {
            Ok(m) => {
                self.active = Some(m);
                Ok(())
            },
            Err(e) => Err(e),
        }
    }

    /// Store a value on the active module; with none loaded, change nothing
    /// and report the condition.
    pub fn set_option(&mut self, k: String, v: String) -> (r: Result<(), NoModule>)
        ensures
            old(self).active is None ==> r is Err && *final (self) == *old(self),
            old(self).active is Some ==> r is Ok && final (self).active is Some
                && final (self).active.unwrap().cfg() == old(self).active.unwrap().cfg().insert(
                k@,
                v@,
            ) && final (self).active.unwrap().decl() == old(self).active.unwrap().decl()
                && final (self).active.unwrap().help_spec() == old(
                self,
            ).active.unwrap().help_spec(),
    {
        match self.active.take() {
            Some(mut m) => {
                m.set(k, v);
                self.active = Some(m);
                Ok(())
            },
            None => Err(NoModule),
        }
    }

    /// The options table of the active module; with none loaded, the
    /// condition. Reading changes nothing either way.
    pub fn show_options(&self) -> (r: Result<Vec<OptionDisplay>, NoModule>)
        ensures
            self.active is None <==> r is Err,
            self.active is Some ==> table_of(self.active.unwrap(), r->Ok_0@),
    {
        match self.active.as_ref() {
            None => Err(NoModule),
            Some(m) => {
                let rows = m.options();
                let n = rows.len();
                let mut out: Vec<OptionDisplay> = Vec::new();
                let mut i: usize = 0;
                while i < n
                    invariant
                        i <= n,
                        n == rows@.len(),
                        crate::plugin::rows_view(rows@) == m.decl(),
                        out@.len() == i,
                        forall|j: int|
                            0 <= j < i ==> {
                                let d = #[trigger] out@[j];
                                let o = m.decl()[j];
                                d.key@ == o.key && d.description@ == o.description && d.required
                                    == !o.optional && d.value@ == display_of(m.cfg(), o.key)
                            },
                    decreases n - i,
                {
                    proof {
                        assert(crate::plugin::rows_view(rows@)[i as int] == rows@[i as int]@);
                    }
                    let value = m.get(rows[i].key.clone());
                    out.push(
                        OptionDisplay {
                            required: !rows[i].optional,
                            key: rows[i].key.clone(),
                            value,
                            description: rows[i].description.clone(),
                        },
                    );
                    i = i + 1;
                }
                Ok(out)
            },
        }
    }

    /// What running the active module decides; with none loaded, the
    /// condition. Deciding changes nothing either way.
    pub fn run_module(&self) -> (r: Result<Result<Request, String>, NoModule>)
        ensures
            self.active is None <==> r is Err,
            self.active is Some ==> match r->Ok_0 {
                Ok(req) => self.active.unwrap().run_spec() is Ok && req.url@ == self.active.unwrap().run_spec()->Ok_0,
                Err(e) => self.active.unwrap().run_spec() is Err && e@ == self.active.unwrap().run_spec()->Err_0,
            },
    {
        match self.active.as_ref() {
            None => Err(NoModule),
            Some(m) => Ok(m.run()),
        }
    }

    /// The active module's self-description; with none loaded, the condition.
    pub fn help_module(&self) -> (r: Result<String, NoModule>)
        ensures
            self.active is None <==> r is Err,
            self.active is Some ==> r->Ok_0@ == self.active.unwrap().help_spec(),
    {
        match self.active.as_ref() {
            None => Err(NoModule),
            Some(m) => Ok(m.help()),
        }
    }

    /// Hand the response of a performed request to the active module and
    /// collect its findings.
    pub fn conclude_active(&self, response: &str) -> (r: Result<Vec<Finding>, NoModule>)
        ensures
            self.active is None <==> r is Err,
            self.active is Some ==> findings_view(r->Ok_0@) == self.active.unwrap().conclude_spec(
                response@,
            ),
    {
        match self.active.as_ref() {
            None => Err(NoModule),
            Some(m) => Ok(m.conclude(response)),
        }
    }

    /// One step of the command loop: parse `input` and carry its command
    /// out. Only a `set` with a module loaded changes the session, and a
    /// load is only requested of the host, never performed here. An empty
    /// `load` path is silently ignored. Commands that need a module yield
    /// the no-active-module condition when none is loaded.
    pub fn step(&mut self, input: &str) -> (r: Reply)
        ensures
            parse_spec(input@) is Err ==> *final (self) == *old(self) && (r matches
            Reply::BadCommand(e) && e@ == parse_spec(input@)->Err_0),
            parse_spec(input@) matches Ok(CommandV::Quit) ==> *final (self) == *old(self) && r is Quit,
            parse_spec(input@) matches Ok(CommandV::Load(p)) ==> *final (self) == *old(self) && (
            if p.len() == 0 {
                r is Silent
            } else {
                r matches Reply::LoadRequested(q) && q@ == p
            }),
            parse_spec(input@) matches Ok(CommandV::SetOption(k, v)) ==> {
                &&& old(self).active is None ==> *final (self) == *old(self) && (r matches
                Reply::NoActive(o) && o is SetOption)
                &&& old(self).active is Some ==> r is Silent && final (self).active is Some
                    && final (self).active.unwrap().cfg() == old(self).active.unwrap().cfg().insert(
                    k,
                    v,
                ) && final (self).active.unwrap().decl() == old(self).active.unwrap().decl()
                    && final (self).active.unwrap().help_spec() == old(
                    self,
                ).active.unwrap().help_spec()
            },
            parse_spec(input@) matches Ok(CommandV::ShowOptions) ==> *final (self) == *old(self) && {
                &&& old(self).active is None ==> (r matches Reply::NoActive(o) && o is ShowOptions)
                &&& old(self).active is Some ==> (r matches Reply::Table(rows) && table_of(
                    old(self).active.unwrap(),
                    rows@,
                ))
            },
            parse_spec(input@) matches Ok(CommandV::Run) ==> *final (self) == *old(self) && {
                &&& old(self).active is None ==> (r matches Reply::NoActive(o) && o is Run)
                &&& old(self).active is Some ==> match old(self).active.unwrap().run_spec() {
                    Ok(u) => r matches Reply::Launched(req) && req.url@ == u,
                    Err(m) => r matches Reply::RunFailed(e) && e@ == m,
                }
            },
            parse_spec(input@) matches Ok(CommandV::Help) ==> *final (self) == *old(self) && {
                &&& old(self).active is None ==> (r matches Reply::NoActive(o) && o is Help)
                &&& old(self).active is Some ==> (r matches Reply::HelpText(h) && h@ == old(
                    self,
                ).active.unwrap().help_spec())
            },
    {
        match Command::try_from(input) {
            Err(e) => Reply::BadCommand(e),
            Ok(Command::Quit) => Reply::Quit,
            Ok(Command::Load(path)) => {
                if path.as_str().is_empty() {
                    Reply::Silent
                } else {
                    Reply::LoadRequested(path)
                }
            },
            Ok(Command::SetOption(k, v)) => match self.set_option(k, v) {
                Ok(_) => Reply::Silent,
                Err(_) => Reply::NoActive(Op::SetOption),
            },
            Ok(Command::ShowOptions) => match self.show_options() {
                Ok(t) => Reply::Table(t),
                Err(_) => Reply::NoActive(Op::ShowOptions),
            },
            Ok(Command::Run) => match self.run_module() {
                Ok(Ok(req)) => Reply::Launched(req),
                Ok(Err(e)) => Reply::RunFailed(e),
                Err(_) => Reply::NoActive(Op::Run),
            },
            Ok(Command::Help) => match self.help_module() {
                Ok(h) => Reply::HelpText(h),
                Err(_) => Reply::NoActive(Op::Help),
            },
        }
    }
}

} // verus!
