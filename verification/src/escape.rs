use vstd::prelude::*;
use crate::chars::{chars_to_string, str_chars};

verus! {

/// TEXT escaping of one character: backslash, semicolon, comma and line feed
/// get a backslash escape, everything else passes through.
pub open spec fn escape_char(c: char) -> Seq<char> {
    if c == '\\' {
        seq!['\\', '\\']
    } else if c == ';' {
        seq!['\\', ';']
    } else if c == ',' {
        seq!['\\', ',']
    } else if c == '\n' {
        seq!['\\', 'n']
    } else {
        seq![c]
    }
}

/// TEXT escaping of a whole value, character by character.
pub open spec fn escape_seq(s: Seq<char>) -> Seq<char>
    decreases s.len(),
{
    if s.len() == 0 {
        Seq::empty()
    } else {
        escape_char(s[0]) + escape_seq(s.skip(1))
    }
}

/// The character named by an escape code: `n` stands for a line feed, any
/// other code stands for itself.
pub open spec fn unescape_code(c: char) -> char {
    if c == 'n' {
        '\n'
    } else {
        c
    }
}

/// Inverse of TEXT escaping: a backslash followed by a code becomes the named
/// character, everything else passes through.
pub open spec fn unescape_seq(s: Seq<char>) -> Seq<char>
    decreases s.len(),
{
    if s.len() == 0 {
        Seq::empty()
    } else if s[0] == '\\' && s.len() >= 2 {
        seq![unescape_code(s[1])] + unescape_seq(s.skip(2))
    } else {
        seq![s[0]] + unescape_seq(s.skip(1))
    }
}

pub proof fn lemma_escape_push(s: Seq<char>, c: char)
    ensures
        escape_seq(s.push(c)) == escape_seq(s) + escape_char(c),
    decreases s.len(),
{
    let sp = s.push(c);
    if s.len() == 0 {
        assert(sp.skip(1) =~= Seq::<char>::empty());
        assert(escape_seq(Seq::<char>::empty()) == Seq::<char>::empty());
        assert(escape_seq(sp) == escape_char(sp[0]) + escape_seq(sp.skip(1)));
        assert(escape_seq(sp) =~= escape_char(c));
        assert(escape_seq(s) + escape_char(c) =~= escape_char(c));
    } else {
        assert(sp.skip(1) =~= s.skip(1).push(c));
        lemma_escape_push(s.skip(1), c);
        assert(escape_seq(sp) == escape_char(s[0]) + (escape_seq(s.skip(1)) + escape_char(c)));
        assert(escape_char(s[0]) + (escape_seq(s.skip(1)) + escape_char(c)) =~= (escape_char(s[0])
            + escape_seq(s.skip(1))) + escape_char(c));
    }
}

/// Escaping then unescaping gives the original value back, for every value.
pub proof fn lemma_unescape_escape(s: Seq<char>)
    ensures
        unescape_seq(escape_seq(s)) == s,
    decreases s.len(),
{
    if s.len() == 0 {
    } else {
        let e = escape_seq(s);
        let head = escape_char(s[0]);
        let rest = escape_seq(s.skip(1));
        lemma_unescape_escape(s.skip(1));
        if s[0] == '\\' || s[0] == ';' || s[0] == ',' || s[0] == '\n' {
            assert(head.len() == 2 && head[0] == '\\');
            assert(e[0] == '\\' && e.len() >= 2);
            assert(e[1] == head[1]);
            assert(e.skip(2) =~= rest);
            assert(unescape_code(head[1]) == s[0]);
            assert(unescape_seq(e) =~= seq![s[0]] + s.skip(1));
            assert(seq![s[0]] + s.skip(1) =~= s);
        } else {
            assert(head =~= seq![s[0]]);
            assert(e[0] == s[0] && s[0] != '\\');
            assert(e.skip(1) =~= rest);
            assert(unescape_seq(e) =~= seq![s[0]] + s.skip(1));
            assert(seq![s[0]] + s.skip(1) =~= s);
        }
    }
}

fn escape_char_into(out: &mut Vec<char>, c: char)
    ensures
        final(out)@ == old(out)@ + escape_char(c),
{
    if c == '\\' {
        out.push('\\');
        out.push('\\');
    } else if c == ';' {
        out.push('\\');
        out.push(';');
    } else if c == ',' {
        out.push('\\');
        out.push(',');
    } else if c == '\n' {
        out.push('\\');
        out.push('n');
    } else {
        out.push(c);
    }
    proof {
        assert(out@ =~= old(out)@ + escape_char(c));
    }
}

/// TEXT escaping over character vectors.
pub fn escape_chars(v: &Vec<char>) -> (r: Vec<char>)
    ensures
        r@ == escape_seq(v@),
{
    let mut out: Vec<char> = Vec::new();
    let mut i: usize = 0;
    while i < v.len()
        invariant
            i <= v.len(),
            out@ == escape_seq(v@.take(i as int)),
        decreases v.len() - i,
    {
        escape_char_into(&mut out, v[i]);
        proof {
            assert(v@.take(i as int).push(v@[i as int]) =~= v@.take(i + 1));
            lemma_escape_push(v@.take(i as int), v@[i as int]);
        }
        i += 1;
    }
    proof {
        assert(v@.take(v@.len() as int) =~= v@);
    }
    out
}

/// Escapes a raw text value for use as a property value.
pub fn escape_text(s: &str) -> (r: String)
    ensures
        r@ == escape_seq(s@),
{
    let v = str_chars(s);
    let out = escape_chars(&v);
    chars_to_string(&out)
}

/// Undoes `escape_text`.
pub fn unescape_text(s: &str) -> (r: String)
    ensures
        r@ == unescape_seq(s@),
{
    let v = str_chars(s);
    let mut out: Vec<char> = Vec::new();
    let mut i: usize = 0;
    proof {
        assert(s@.skip(0) =~= s@);
        assert(Seq::<char>::empty() + unescape_seq(s@) =~= unescape_seq(s@));
    }
    while i < v.len()
        invariant
            i <= v.len(),
            v@ == s@,
            unescape_seq(s@) == out@ + unescape_seq(s@.skip(i as int)),
        decreases v.len() - i,
    {
        let ghost pre = out@;
        let ghost tail = s@.skip(i as int);
        if v[i] == '\\' && i + 1 < v.len() {
            out.push(unescape_code_exec(v[i + 1]));
            proof {
                assert(tail[0] == '\\' && tail.len() >= 2);
                assert(tail[1] == s@[i + 1]);
                assert(tail.skip(2) =~= s@.skip(i + 2));
                assert(out@ =~= pre + seq![unescape_code(s@[i + 1])]);
                assert(pre + (seq![unescape_code(tail[1])] + unescape_seq(tail.skip(2))) =~= out@
                    + unescape_seq(s@.skip(i + 2)));
            }
            i += 2;
        } else {
            out.push(v[i]);
            proof {
                assert(tail[0] == s@[i as int]);
                if tail[0] == '\\' {
                    assert(i + 1 >= v.len());
                    assert(tail.len() == 1);
                }
                assert(tail.skip(1) =~= s@.skip(i + 1));
                assert(out@ =~= pre + seq![tail[0]]);
                assert(pre + (seq![tail[0]] + unescape_seq(tail.skip(1))) =~= out@ + unescape_seq(
                    s@.skip(i + 1),
                ));
            }
            i += 1;
        }
    }
    proof {
        assert(s@.skip(s@.len() as int) =~= Seq::<char>::empty());
        assert(out@ =~= unescape_seq(s@));
    }
    chars_to_string(&out)
}

fn unescape_code_exec(c: char) -> (r: char)
    ensures
        r == unescape_code(c),
{
    if c == 'n' {
        '\n'
    } else {
        c
    }
}

/// Whether a parameter value needs to be quoted: it contains a colon,
/// semicolon or comma.
pub open spec fn param_needs_quoting(s: Seq<char>) -> bool {
    exists|i: int| 0 <= i < s.len() && (s[i] == ':' || s[i] == ';' || s[i] == ',')
}

/// Parameter-value quoting: a value with a colon, semicolon or comma is
/// wrapped in one pair of double quotes and left otherwise unmodified; any
/// other value passes through unchanged.
pub open spec fn quote_param_value(s: Seq<char>) -> Seq<char> {
    if param_needs_quoting(s) {
        seq!['"'] + s + seq!['"']
    } else {
        s
    }
}

/// A quoted value is the original wrapped in exactly one pair of double
/// quotes, with the inside unmodified; an unquoted value is untouched.
pub proof fn lemma_param_quoting(s: Seq<char>)
    ensures
        param_needs_quoting(s) ==> {
            let q = quote_param_value(s);
            &&& q.len() == s.len() + 2
            &&& q[0] == '"'
            &&& q.last() == '"'
            &&& q.subrange(1, s.len() as int + 1) == s
        },
        !param_needs_quoting(s) ==> quote_param_value(s) == s,
{
    if param_needs_quoting(s) {
        assert(quote_param_value(s).subrange(1, s.len() as int + 1) =~= s);
    }
}

/// Quotes a raw parameter value when it needs quoting.
pub fn escape_param(s: &str) -> (r: String)
    ensures
        r@ == quote_param_value(s@),
{
    let v = str_chars(s);
    let mut needs: bool = false;
    let mut i: usize = 0;
    while i < v.len()
        invariant
            i <= v.len(),
            v@ == s@,
            needs == exists|k: int| 0 <= k < i && (s@[k] == ':' || s@[k] == ';' || s@[k] == ','),
        decreases v.len() - i,
    {
        let c = v[i];
        if c == ':' || c == ';' || c == ',' {
            needs = true;
        }
        i += 1;
    }
    if needs {
        let mut out: Vec<char> = Vec::new();
        out.push('"');
        let mut j: usize = 0;
        while j < v.len()
            invariant
                j <= v.len(),
                v@ == s@,
                out@ == seq!['"'] + s@.take(j as int),
            decreases v.len() - j,
        {
            out.push(v[j]);
            proof {
                assert(seq!['"'] + s@.take(j + 1) =~= (seq!['"'] + s@.take(j as int)).push(
                    s@[j as int],
                ));
            }
            j += 1;
        }
        out.push('"');
        proof {
            assert(s@.take(s@.len() as int) =~= s@);
            assert(out@ =~= seq!['"'] + s@ + seq!['"']);
        }
        chars_to_string(&out)
    } else {
        proof {
            assert(!param_needs_quoting(s@));
        }
        chars_to_string(&v)
    }
}

} // verus!
