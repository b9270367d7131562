use vstd::prelude::*;
use vstd::string::*;

verus! {

/// One line of user input, parsed: the closed set of shell commands.
pub enum Command {
    Load(String),
    SetOption(String, String),
    ShowOptions,
    Run,
    Help,
    Quit,
}

/// The mathematical content of a `Command`.
pub enum CommandV {
    Load(Seq<char>),
    SetOption(Seq<char>, Seq<char>),
    ShowOptions,
    Run,
    Help,
    Quit,
}

impl View for Command {
    type V = CommandV;

    open spec fn view(&self) -> CommandV {
        match self {
            Command::Load(p) => CommandV::Load(p@),
            Command::SetOption(k, v) => CommandV::SetOption(k@, v@),
            Command::ShowOptions => CommandV::ShowOptions,
            Command::Run => CommandV::Run,
            Command::Help => CommandV::Help,
            Command::Quit => CommandV::Quit,
        }
    }
}

/// The views of a vector of strings.
pub open spec fn tokens_view(ts: Seq<String>) -> Seq<Seq<char>> {
    ts.map_values(|t: String| t@)
}

/// `s` split at every occurrence of `sep`; adjacent separators give empty
/// fields, as splitting on a one-character pattern does.
pub open spec fn split_on(s: Seq<char>, sep: char) -> Seq<Seq<char>>
    decreases s.len(),
{
    if s.len() == 0 {
        seq![Seq::<char>::empty()]
    } else if s[0] == sep {
        seq![Seq::<char>::empty()] + split_on(s.skip(1), sep)
    } else {
        let rest = split_on(s.skip(1), sep);
        seq![seq![s[0]] + rest[0]] + rest.skip(1)
    }
}

/// The fields joined back with `sep` between them.
pub open spec fn join_with(ts: Seq<Seq<char>>, sep: char) -> Seq<char>
    decreases ts.len(),
{
    if ts.len() == 0 {
        Seq::empty()
    } else if ts.len() == 1 {
        ts[0]
    } else {
        ts[0] + seq![sep] + join_with(ts.skip(1), sep)
    }
}

/// How one input line reads as a command, or the message shown when it does
/// not: case-sensitive verbs, each with its arity. The rest of a `set` line
/// is the value, spaces kept.
pub open spec fn parse_spec(s: Seq<char>) -> Result<CommandV, Seq<char>> {
    let t = split_on(s, ' ');
    if t[0] == "quit"@ || t[0] == "q"@ {
        Ok(CommandV::Quit)
    } else if t[0] == "load"@ || t[0] == "l"@ {
        if t.len() == 2 {
            Ok(CommandV::Load(t[1]))
        } else {
            Err("usage: load <module path>"@)
        }
    } else if t[0] == "set"@ {
        if t.len() >= 3 {
            Ok(CommandV::SetOption(t[1], join_with(t.skip(2), ' ')))
        } else {
            Err("usage: set <key> <value>"@)
        }
    } else if t[0] == "run"@ || t[0] == "r"@ {
        Ok(CommandV::Run)
    } else if t[0] == "?"@ || t[0] == "options"@ || t[0] == "o"@ {
        Ok(CommandV::ShowOptions)
    } else if t[0] == "help"@ || t[0] == "h"@ {
        Ok(CommandV::Help)
    } else {
        Err("Unknown command "@ + t[0])
    }
}

/// Where the first `k` characters hold no separator, splitting takes the
/// whole of them as its first field.
proof fn lemma_split_at_first_sep(s: Seq<char>, sep: char, k: int)
    requires
        0 <= k <= s.len(),
        forall|j: int| 0 <= j < k ==> s[j] != sep,
    ensures
        k == s.len() ==> split_on(s, sep) == seq![s],
        k < s.len() && s[k] == sep ==> split_on(s, sep) == seq![s.take(k)] + split_on(
            s.skip(k + 1),
            sep,
        ),
    decreases k,
{
    if k == 0 {
        if k == s.len() {
            assert(split_on(s, sep) =~~= seq![s]);
        } else if s[0] == sep {
            assert(s.skip(1) =~= s.skip(k + 1));
            assert(split_on(s, sep) =~~= seq![s.take(0)] + split_on(s.skip(1), sep));
        }
    } else {
        lemma_split_at_first_sep(s.skip(1), sep, k - 1);
        let rest = split_on(s.skip(1), sep);
        if k == s.len() {
            assert(s.skip(1).len() == k - 1);
            assert(rest == seq![s.skip(1)]);
            assert(seq![s[0]] + s.skip(1) =~= s);
            assert(split_on(s, sep) =~~= seq![s]);
        } else if s[k] == sep {
            assert(s.skip(1)[k - 1] == sep);
            assert(rest == seq![s.skip(1).take(k - 1)] + split_on(s.skip(1).skip(k), sep));
            assert(s.skip(1).skip(k) =~= s.skip(k + 1));
            assert(seq![s[0]] + s.skip(1).take(k - 1) =~= s.take(k));
            assert(rest.skip(1) =~~= split_on(s.skip(k + 1), sep));
            assert(split_on(s, sep) =~~= seq![s.take(k)] + split_on(s.skip(k + 1), sep));
        }
    }
}

/// Joining after appending one more field appends a separator and the field.
proof fn lemma_join_push(ts: Seq<Seq<char>>, sep: char, x: Seq<char>)
    requires
        ts.len() >= 1,
    ensures
        join_with(ts.push(x), sep) == join_with(ts, sep) + seq![sep] + x,
    decreases ts.len(),
{
    if ts.len() == 1 {
        assert(ts.push(x).skip(1) =~~= seq![x]);
        assert(ts.push(x)[0] == ts[0]);
        assert(join_with(seq![x], sep) == x);
        assert(join_with(ts.push(x), sep) =~= join_with(ts, sep) + seq![sep] + x);
    } else {
        assert(ts.push(x).skip(1) =~~= ts.skip(1).push(x));
        lemma_join_push(ts.skip(1), sep, x);
        assert(join_with(ts.push(x), sep) =~= join_with(ts, sep) + seq![sep] + x);
    }
}

/// Whether two strings hold the same characters.
fn str_eq(a: &str, b: &str) -> (r: bool)
    ensures
        r == (a@ == b@),
{
    let x = a.to_owned();
    let y = b.to_owned();
    x == y
}

/// The fields of `s`, split at every space.
fn split_spaces(s: &str) -> (r: Vec<String>)
    ensures
        tokens_view(r@) == split_on(s@, ' '),
        r@.len() >= 1,
{
    let n = s.unicode_len();
    let mut r: Vec<String> = Vec::new();
    let mut start: usize = 0;
    let mut i: usize = 0;
    proof {
        assert(tokens_view(r@) =~~= Seq::<Seq<char>>::empty());
        assert(s@.skip(0) =~= s@);
        assert(tokens_view(r@) + split_on(s@.skip(0), ' ') =~~= split_on(s@, ' '));
    }
    while i < n
        invariant
            start <= i <= n,
            n == s@.len(),
            forall|j: int| start <= j < i ==> s@[j] != ' ',
            split_on(s@, ' ') == tokens_view(r@) + split_on(s@.skip(start as int), ' '),
        decreases n - i,
    {
        if s.get_char(i) == ' ' {
            let tok = s.substring_char(start, i).to_owned();
            let ghost prev = tokens_view(r@);
            proof {
                lemma_split_at_first_sep(s@.skip(start as int), ' ', i - start);
                assert(s@.skip(start as int)[i - start] == s@[i as int]);
                assert(s@.skip(start as int).take(i - start) =~= s@.subrange(
                    start as int,
                    i as int,
                ));
                assert(s@.skip(start as int).skip(i - start + 1) =~= s@.skip(i as int + 1));
                assert(tok@ == s@.skip(start as int).take(i - start));
            }
            r.push(tok);
            proof {
                assert(tokens_view(r@) =~~= prev.push(tok@));
                assert(tokens_view(r@) + split_on(s@.skip(i as int + 1), ' ') =~~= prev + (seq![
                    tok@,
                ] + split_on(s@.skip(i as int + 1), ' ')));
            }
            start = i + 1;
        }
        i = i + 1;
    }
    let tok = s.substring_char(start, n).to_owned();
    let ghost prev = tokens_view(r@);
    proof {
        lemma_split_at_first_sep(s@.skip(start as int), ' ', n - start);
        assert(split_on(s@.skip(start as int), ' ') == seq![s@.skip(start as int)]);
        assert(tok@ == s@.skip(start as int));
    }
    r.push(tok);
    proof {
        assert(tokens_view(r@) =~~= prev.push(tok@));
        assert(tokens_view(r@) =~~= prev + seq![tok@]);
        assert(split_on(s@, ' ') =~~= tokens_view(r@));
    }
    r
}

/// The fields from `from` on, joined with single spaces.
fn join_from(ts: &Vec<String>, from: usize) -> (r: String)
    requires
        from < ts@.len(),
    ensures
        r@ == join_with(tokens_view(ts@).skip(from as int), ' '),
{
    let ghost tv = tokens_view(ts@);
    let n = ts.len();
    let mut out = ts[from].clone();
    let mut i: usize = from + 1;
    proof {
        assert(tv.subrange(from as int, from as int + 1) =~~= seq![tv[from as int]]);
        assert(out@ == join_with(tv.subrange(from as int, from as int + 1), ' '));
    }
    while i < ts.len()
        invariant
            from < i <= ts@.len(),
            tv == tokens_view(ts@),
            out@ == join_with(tv.subrange(from as int, i as int), ' '),
        decreases ts@.len() - i,
    {
        let ghost before = tv.subrange(from as int, i as int);
        proof {
            lemma_join_push(before, ' ', tv[i as int]);
            assert(tv.subrange(from as int, i as int + 1) =~~= before.push(tv[i as int]));
        }
        out.append(" ");
        out.append(ts[i].as_str());
        proof {
            reveal_strlit(" ");
            assert(" "@ =~= seq![' ']);
            assert(out@ == join_with(tv.subrange(from as int, i as int + 1), ' '));
        }
        i = i + 1;
    }
    proof {
        assert(tv.subrange(from as int, ts@.len() as int) =~~= tv.skip(from as int));
    }
    out
}

impl Command {
    /// Parse one input line; the result is what `parse_spec` reads in it.
    pub fn try_from(input: &str) -> (r: Result<Command, String>)
        ensures
            match r {
                Ok(c) => parse_spec(input@) is Ok && c@ == parse_spec(input@)->Ok_0,
                Err(e) => parse_spec(input@) is Err && e@ == parse_spec(input@)->Err_0,
            },
    {
        let tokens = split_spaces(input);
        let ghost t = split_on(input@, ' ');
        proof {
            assert(t[0] == tokens@[0]@);
            assert(t.len() == tokens@.len());
        }
        let verb = tokens[0].as_str();
        if str_eq(verb, "quit") || str_eq(verb, "q") {
            Ok(Command::Quit)
        } else if str_eq(verb, "load") || str_eq(verb, "l") {
            if tokens.len() == 2 {
                proof {
                    assert(t[1] == tokens@[1]@);
                }
                Ok(Command::Load(tokens[1].clone()))
            } else {
                Err(String::from_str("usage: load <module path>"))
            }
        } else if str_eq(verb, "set") {
            if tokens.len() >= 3 {
                let value = join_from(&tokens, 2);
                proof {
                    assert(t[1] == tokens@[1]@);
                    assert(tokens_view(tokens@).skip(2) =~~= t.skip(2));
                }
                Ok(Command::SetOption(tokens[1].clone(), value))
            } else {
                Err(String::from_str("usage: set <key> <value>"))
            }
        } else if str_eq(verb, "run") || str_eq(verb, "r") {
            Ok(Command::Run)
        } else if str_eq(verb, "?") || str_eq(verb, "options") || str_eq(verb, "o") {
            Ok(Command::ShowOptions)
        } else if str_eq(verb, "help") || str_eq(verb, "h") {
            Ok(Command::Help)
        } else {
            let mut msg = String::from_str("Unknown command ");
            msg.append(verb);
            Err(msg)
        }
    }
}

} // verus!
