use vstd::prelude::*;
use crate::store::display_of;

verus! {

/// One configurable parameter as a module declares it: key, description, and
/// whether leaving it unset is acceptable.
pub struct OptionRow {
    pub key: String,
    pub description: String,
    pub optional: bool,
}

/// The mathematical content of an `OptionRow`.
pub struct OptionRowV {
    pub key: Seq<char>,
    pub description: Seq<char>,
    pub optional: bool,
}

impl View for OptionRow {
    type V = OptionRowV;

    open spec fn view(&self) -> OptionRowV {
        OptionRowV { key: self.key@, description: self.description@, optional: self.optional }
    }
}

/// The outside work a module asks its host to perform when told to run: one
/// HTTP GET of `url`, whose response text the host hands to `conclude`.
#[derive(Debug)]
pub struct Request {
    pub url: String,
}

/// One disclosed item, shown to the user as "label: value".
#[derive(Debug)]
pub struct Finding {
    pub label: String,
    pub value: String,
}

/// The mathematical content of a `Finding`.
pub struct FindingV {
    pub label: Seq<char>,
    pub value: Seq<char>,
}

impl View for Finding {
    type V = FindingV;

    open spec fn view(&self) -> FindingV {
        FindingV { label: self.label@, value: self.value@ }
    }
}

/// The views of a vector of option rows.
pub open spec fn rows_view(rows: Seq<OptionRow>) -> Seq<OptionRowV> {
    rows.map_values(|r: OptionRow| r@)
}

/// The views of a vector of findings.
pub open spec fn findings_view(fs: Seq<Finding>) -> Seq<FindingV> {
    fs.map_values(|f: Finding| f@)
}

/// The capability set every module must implement. A dynamic library becomes
/// a module by exporting a zero-argument factory named `get_plugin` that
/// returns a value satisfying this contract; that symbol name and this
/// method set are the entire plugin ABI, with no version negotiation.
///
/// A module performs no outside work itself: told to run, it either names
/// the request its host must perform or reports why it cannot, and it reads
/// the response the host hands back. The host stays free of module logic,
/// the module free of transport.
pub trait Module: Sized {
    /// The module's current configuration. The defaults of this and the
    /// other ghost members stand for modules that live outside the
    /// verifier, a dynamically loaded one above all; a verified module
    /// gives each its real meaning.
    open spec fn cfg(&self) -> Map<Seq<char>, Seq<char>> {
        Map::empty()
    }

    /// The parameters the module declares, in display order.
    open spec fn decl(&self) -> Seq<OptionRowV> {
        Seq::empty()
    }

    /// The module's self-description.
    open spec fn help_spec(&self) -> Seq<char> {
        Seq::empty()
    }

    /// What running decides on the current configuration: the request to
    /// perform, or the failure to report.
    open spec fn run_spec(&self) -> Result<Seq<char>, Seq<char>> {
        Err(Seq::empty())
    }

    /// What the module reports of a response text.
    open spec fn conclude_spec(&self, response: Seq<char>) -> Seq<FindingV> {
        Seq::empty()
    }

    /// The self-description, for display.
    fn help(&self) -> (r: String)
        ensures
            r@ == self.help_spec(),
    ;

    /// The declared parameters, in declaration order.
    fn options(&self) -> (r: Vec<OptionRow>)
        ensures
            rows_view(r@) == self.decl(),
    ;

    /// Store `v` under `k`. Unknown keys are accepted; what the module
    /// declares and describes does not change.
    fn set(&mut self, k: String, v: String)
        ensures
            final(self).cfg() == old(self).cfg().insert(k@, v@),
            final(self).decl() == old(self).decl(),
            final(self).help_spec() == old(self).help_spec(),
    ;

    /// Read a configuration value back; a missing key yields the sentinel
    /// "null", never an error.
    fn get(&self, k: String) -> (r: String)
        ensures
            r@ == display_of(self.cfg(), k@),
    ;

    /// Decide what running means now: the request the host should perform,
    /// or the failure to report (a missing required value, for one).
    fn run(&self) -> (r: Result<Request, String>)
        ensures
            match r {
                Ok(req) => self.run_spec() is Ok && req.url@ == self.run_spec()->Ok_0,
                Err(e) => self.run_spec() is Err && e@ == self.run_spec()->Err_0,
            },
    ;

    /// Read the response of the performed request and report the findings.
    fn conclude(&self, response: &str) -> (r: Vec<Finding>)
        ensures
            findings_view(r@) == self.conclude_spec(response@),
    ;
}

} // verus!
