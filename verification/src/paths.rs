//! Best-effort extraction of an executable path from a command line: a
//! leading quoted string wins, otherwise the first whitespace-separated
//! token.
use vstd::prelude::*;

verus! {

/// The Unicode White_Space set, the same set str::trim and
/// str::split_whitespace split on.
pub open spec fn is_space(c: char) -> bool {
    ||| c == ' '
    ||| c == '\t'
    ||| c == '\n'
    ||| c == '\r'
    ||| c == '\u{b}'
    ||| c == '\u{c}'
    ||| c == '\u{85}'
    ||| c == '\u{a0}'
    ||| c == '\u{1680}'
    ||| ('\u{2000}' <= c && c <= '\u{200a}')
    ||| c == '\u{2028}'
    ||| c == '\u{2029}'
    ||| c == '\u{202f}'
    ||| c == '\u{205f}'
    ||| c == '\u{3000}'
}

fn is_space_exec(c: char) -> (r: bool)
    ensures
        r == is_space(c),
{
    c == ' ' || c == '\t' || c == '\n' || c == '\r' || c == '\u{b}' || c == '\u{c}' || c == '\u{85}'
        || c == '\u{a0}' || c == '\u{1680}' || ('\u{2000}' <= c && c <= '\u{200a}') || c
        == '\u{2028}' || c == '\u{2029}' || c == '\u{202f}' || c == '\u{205f}' || c == '\u{3000}'
}

/// A sequence without its leading whitespace.
pub open spec fn trim_start(s: Seq<char>) -> Seq<char>
    decreases s.len(),
{
    if s.len() > 0 && is_space(s[0]) {
        trim_start(s.skip(1))
    } else {
        s
    }
}

/// A sequence without its trailing whitespace.
pub open spec fn trim_end(s: Seq<char>) -> Seq<char>
    decreases s.len(),
{
    if s.len() > 0 && is_space(s.last()) {
        trim_end(s.drop_last())
    } else {
        s
    }
}

/// A sequence without leading and trailing whitespace, as str::trim yields.
pub open spec fn trim_spec(s: Seq<char>) -> Seq<char> {
    trim_end(trim_start(s))
}

/// The index of the first character satisfying `pred`, if any.
pub open spec fn find_first(s: Seq<char>, pred: spec_fn(char) -> bool) -> Option<int>
    decreases s.len(),
{
    if s.len() == 0 {
        Option::None
    } else if pred(s[0]) {
        Option::Some(0)
    } else {
        match find_first(s.skip(1), pred) {
            Option::None => Option::None,
            Option::Some(i) => Option::Some(i + 1),
        }
    }
}

/// The predicate of a double-quote character.
pub open spec fn quote_pred() -> spec_fn(char) -> bool {
    |c: char| c == '"'
}

/// The predicate of a whitespace character.
pub open spec fn space_pred() -> spec_fn(char) -> bool {
    |c: char| is_space(c)
}

proof fn lemma_find_first_hit(s: Seq<char>, pred: spec_fn(char) -> bool, i: int)
    requires
        0 <= i < s.len(),
        pred(s[i]),
        forall|k: int| 0 <= k < i ==> !pred(s[k]),
    ensures
        find_first(s, pred) == Option::Some(i),
    decreases i,
{
    if i > 0 {
        assert(s.skip(1)[i - 1] == s[i]);
        assert forall|k: int| 0 <= k < i - 1 implies !pred(s.skip(1)[k]) by {
            assert(s.skip(1)[k] == s[k + 1]);
        }
        lemma_find_first_hit(s.skip(1), pred, i - 1);
    }
}

proof fn lemma_find_first_none(s: Seq<char>, pred: spec_fn(char) -> bool)
    requires
        forall|k: int| 0 <= k < s.len() ==> !pred(s[k]),
    ensures
        find_first(s, pred) is None,
    decreases s.len(),
{
    if s.len() > 0 {
        assert forall|k: int| 0 <= k < s.skip(1).len() implies !pred(s.skip(1)[k]) by {
            assert(s.skip(1)[k] == s[k + 1]);
        }
        lemma_find_first_none(s.skip(1), pred);
    }
}

/// What `extract_executable_path_guess` yields for a command line: nothing
/// for all-whitespace input; the content of a leading quoted string when the
/// trimmed input starts with a quote and a closing quote follows; otherwise
/// the first whitespace-separated token.
pub open spec fn spec_extract(s: Seq<char>) -> Option<Seq<char>> {
    let t = trim_spec(s);
    if t.len() == 0 {
        Option::None
    } else if t[0] == '"' && find_first(t.skip(1), quote_pred()) is Some {
        Option::Some(t.skip(1).take(find_first(t.skip(1), quote_pred())->Some_0))
    } else {
        match find_first(t, space_pred()) {
            Option::None => Option::Some(t),
            Option::Some(i) => Option::Some(t.take(i)),
        }
    }
}

fn trim_exec<'a>(s: &'a str) -> (r: &'a str)
    ensures
        r@ == trim_spec(s@),
{
    let len = s.unicode_len();
    let mut a: usize = 0;
    proof {
        assert(s@.skip(0) =~= s@);
    }
    while a < len && is_space_exec(s.get_char(a))
        invariant
            a <= len,
            len == s@.len(),
            trim_start(s@) == trim_start(s@.skip(a as int)),
        decreases len - a,
    {
        proof {
            assert(s@.skip(a as int)[0] == s@[a as int]);
            assert(s@.skip(a as int).skip(1) =~= s@.skip(a as int + 1));
        }
        a = a + 1;
    }
    proof {
        assert(trim_start(s@) =~= s@.skip(a as int));
    }
    let mut b: usize = len;
    proof {
        assert(s@.subrange(a as int, b as int) =~= s@.skip(a as int));
    }
    while b > a && is_space_exec(s.get_char(b - 1))
        invariant
            a <= b <= len,
            len == s@.len(),
            trim_start(s@) == s@.skip(a as int),
            trim_end(s@.skip(a as int)) == trim_end(s@.subrange(a as int, b as int)),
        decreases b,
    {
        proof {
            let u = s@.subrange(a as int, b as int);
            assert(u.last() == s@[b - 1]);
            assert(u.drop_last() =~= s@.subrange(a as int, b as int - 1));
        }
        b = b - 1;
    }
    proof {
        let u = s@.subrange(a as int, b as int);
        if b == a {
            assert(u.len() == 0);
        }
        assert(trim_end(u) =~= u);
    }
    s.substring_char(a, b)
}

/// Guess the executable path of a command line, conservatively: the content
/// of a leading quoted string when there is a closing quote, otherwise the
/// first whitespace-separated token; nothing for an all-whitespace command.
pub fn extract_executable_path_guess(command: &str) -> (r: Option<String>)
    ensures
        r is Some <==> spec_extract(command@) is Some,
        r matches Some(v) ==> v@ == spec_extract(command@)->Some_0,
{
    let c = trim_exec(command);
    let clen = c.unicode_len();
    if clen == 0 {
        return Option::None;
    }
    let ghost t = c@;
    if c.get_char(0) == '"' {
        let mut j: usize = 1;
        while j < clen
            invariant
                1 <= j <= clen,
                clen == t.len(),
                t == c@,
                t == trim_spec(command@),
                t[0] == '"',
                forall|k: int| 1 <= k < j ==> t[k] != '"',
            decreases clen - j,
        {
            if c.get_char(j) == '"' {
                proof {
                    assert(t.skip(1)[j - 1] == t[j as int]);
                    assert forall|k: int| 0 <= k < j - 1 implies !(quote_pred())(
                        t.skip(1)[k],
                    ) by {
                        assert(t.skip(1)[k] == t[k + 1]);
                    }
                    lemma_find_first_hit(t.skip(1), quote_pred(), j - 1);
                    assert(t.skip(1).take(j - 1) =~= t.subrange(1, j as int));
                }
                return Option::Some(c.substring_char(1, j).to_owned());
            }
            j = j + 1;
        }
        proof {
            assert forall|k: int| 0 <= k < t.skip(1).len() implies !(quote_pred())(
                t.skip(1)[k],
            ) by {
                assert(t.skip(1)[k] == t[k + 1]);
            }
            lemma_find_first_none(t.skip(1), quote_pred());
        }
    }
    let mut j: usize = 0;
    while j < clen && !is_space_exec(c.get_char(j))
        invariant
            j <= clen,
            clen == t.len(),
            t == c@,
            t == trim_spec(command@),
            forall|k: int| 0 <= k < j ==> !is_space(t[k]),
        decreases clen - j,
    {
        j = j + 1;
    }
    proof {
        if j < clen {
            lemma_find_first_hit(t, space_pred(), j as int);
        } else {
            lemma_find_first_none(t, space_pred());
            assert(t.take(t.len() as int) =~= t);
        }
    }
    Option::Some(c.substring_char(0, j).to_owned())
}

} // verus!
