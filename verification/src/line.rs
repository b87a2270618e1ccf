use vstd::prelude::*;
use crate::chars::{append_chars, append_str, chars_to_string, octet_len, str_chars};
use crate::escape::{escape_chars, escape_param, escape_seq, quote_param_value};
use crate::folding::{
    fold_content, fold_lines, lemma_fold_lines_octets, lemma_fold_unfold, unfold_lines,
};

verus! {

/// The mathematical model of one property parameter: a name and the ordered
/// raw values.
#[verifier::ext_equal]
pub ghost struct ParamModel {
    pub name: Seq<char>,
    pub values: Seq<Seq<char>>,
}

/// The mathematical model of one content line: a property name, ordered
/// parameters, and the raw (unescaped) value.
#[verifier::ext_equal]
pub ghost struct LineModel {
    pub name: Seq<char>,
    pub params: Seq<ParamModel>,
    pub value: Seq<char>,
}

/// A property parameter: a name and an ordered, non-empty list of raw values.
pub struct Parameter {
    pub name: String,
    pub values: Vec<String>,
}

impl View for Parameter {
    type V = ParamModel;

    open spec fn view(&self) -> ParamModel {
        ParamModel { name: self.name@, values: self.values.deep_view() }
    }
}

/// One logical iCalendar property: name, parameters and raw value.
pub struct ContentLine {
    pub name: String,
    pub params: Vec<Parameter>,
    pub value: String,
}

impl View for ContentLine {
    type V = LineModel;

    open spec fn view(&self) -> LineModel {
        LineModel {
            name: self.name@,
            params: Seq::new(self.params@.len(), |i: int| self.params@[i]@),
            value: self.value@,
        }
    }
}

/// The models of a sequence of content lines, in order.
pub open spec fn line_models(s: Seq<ContentLine>) -> Seq<LineModel> {
    Seq::new(s.len(), |i: int| s[i]@)
}

/// Appending one content line appends its model.
pub proof fn lemma_line_models_push(prev: Seq<ContentLine>, clm: LineModel, cur: Seq<ContentLine>)
    requires
        cur.len() == prev.len() + 1,
        forall|i: int| 0 <= i < prev.len() ==> cur[i] == prev[i],
        cur.last()@ == clm,
    ensures
        line_models(cur) == line_models(prev) + seq![clm],
{
    assert(line_models(cur) =~~= line_models(prev) + seq![clm]);
}

/// Parameter values joined with commas, each quoted when it needs quoting.
pub open spec fn joined_values(vs: Seq<Seq<char>>) -> Seq<char>
    decreases vs.len(),
{
    if vs.len() == 0 {
        Seq::empty()
    } else if vs.len() == 1 {
        quote_param_value(vs[0])
    } else {
        joined_values(vs.drop_last()) + seq![','] + quote_param_value(vs.last())
    }
}

/// The rendering of one parameter: `NAME=v1,v2,...`.
pub open spec fn param_text(p: ParamModel) -> Seq<char> {
    p.name + seq!['='] + joined_values(p.values)
}

/// The rendering of a parameter list: a leading `;` before each parameter.
pub open spec fn params_text(ps: Seq<ParamModel>) -> Seq<char>
    decreases ps.len(),
{
    if ps.len() == 0 {
        Seq::empty()
    } else {
        params_text(ps.drop_last()) + seq![';'] + param_text(ps.last())
    }
}

/// The unfolded text of a content line:
/// `NAME` + `;PARAM` for each parameter + `:` + escaped value.
pub open spec fn unfolded_text(l: LineModel) -> Seq<char> {
    l.name + params_text(l.params) + seq![':'] + escape_seq(l.value)
}

/// Physical lines joined, each terminated by CRLF.
pub open spec fn crlf_join(lines: Seq<Seq<char>>) -> Seq<char>
    decreases lines.len(),
{
    if lines.len() == 0 {
        Seq::empty()
    } else {
        crlf_join(lines.drop_last()) + lines.last() + seq!['\r', '\n']
    }
}

/// The exact transmitted text of one content line: escaped, folded at 75
/// octets, each physical line terminated by CRLF.
pub open spec fn rendered_line(l: LineModel) -> Seq<char> {
    crlf_join(fold_lines(unfolded_text(l)))
}

/// Every physical line of a rendered content line stays within 75 octets,
/// not counting the CRLF; lines break only at character boundaries.
pub proof fn lemma_rendered_line_octets(l: LineModel)
    ensures
        forall|i: int|
            0 <= i < fold_lines(unfolded_text(l)).len() ==> octet_len(
                #[trigger] fold_lines(unfolded_text(l))[i],
            ) <= 75,
{
    lemma_fold_lines_octets(unfolded_text(l));
}

/// Rejoining the physical lines of a rendered content line (CRLF removed,
/// continuation leading space removed) reconstructs the unfolded line.
pub proof fn lemma_rendered_line_unfolds(l: LineModel)
    ensures
        unfold_lines(fold_lines(unfolded_text(l))) == unfolded_text(l),
        forall|i: int|
            1 <= i < fold_lines(unfolded_text(l)).len() ==> (#[trigger] fold_lines(
                unfolded_text(l),
            )[i]).len() >= 1 && fold_lines(unfolded_text(l))[i][0] == ' ',
{
    lemma_fold_unfold(unfolded_text(l));
}

impl Parameter {
    /// Appends `NAME=v1,v2,...` with each value quoted when needed.
    fn append_text(&self, out: &mut Vec<char>)
        ensures
            final(out)@ == old(out)@ + param_text(self@),
    {
        append_str(out, self.name.as_str());
        out.push('=');
        let ghost base = old(out)@ + self@.name + seq!['='];
        proof {
            assert(out@ =~= base);
        }
        let mut j: usize = 0;
        while j < self.values.len()
            invariant
                j <= self.values.len(),
                self@.values.len() == self.values@.len(),
                out@ == base + joined_values(self@.values.take(j as int)),
            decreases self.values.len() - j,
        {
            let ghost vs = self@.values;
            if j > 0 {
                out.push(',');
            }
            let q = escape_param(self.values[j].as_str());
            append_str(out, q.as_str());
            proof {
                assert(vs[j as int] == self.values@[j as int]@);
                if j == 0 {
                    assert(vs.take(1).len() == 1);
                    assert(vs.take(1)[0] == vs[0]);
                    assert(joined_values(vs.take(1)) == quote_param_value(vs[0]));
                    assert(out@ =~= base + joined_values(vs.take(1)));
                } else {
                    assert(vs.take(j + 1).drop_last() =~= vs.take(j as int));
                    assert(vs.take(j + 1).last() == vs[j as int]);
                    assert(vs.take(j + 1).len() >= 2);
                    assert(joined_values(vs.take(j + 1)) == joined_values(vs.take(j as int))
                        + seq![','] + quote_param_value(vs[j as int]));
                    assert(out@ =~= base + joined_values(vs.take(j + 1)));
                }
            }
            j += 1;
        }
        proof {
            assert(self@.values.take(self@.values.len() as int) =~= self@.values);
            assert(out@ =~= old(out)@ + param_text(self@));
        }
    }
}

impl ContentLine {
    /// Produces the exact transmitted text of this property, terminated per
    /// physical line by CRLF.
    pub fn render(&self) -> (r: String)
        ensures
            r@ == rendered_line(self@),
    {
        let mut out: Vec<char> = Vec::new();
        append_str(&mut out, self.name.as_str());
        let ghost ps = self@.params;
        let mut j: usize = 0;
        proof {
            assert(params_text(ps.take(0)) == Seq::<char>::empty());
            assert(out@ =~= self@.name + params_text(ps.take(0)));
        }
        while j < self.params.len()
            invariant
                j <= self.params.len(),
                ps == self@.params,
                ps.len() == self.params@.len(),
                forall|i: int| 0 <= i < ps.len() ==> #[trigger] ps[i] == self.params@[i]@,
                out@ == self@.name + params_text(ps.take(j as int)),
            decreases self.params.len() - j,
        {
            out.push(';');
            let p = &self.params[j];
            p.append_text(&mut out);
            proof {
                assert(ps.take(j + 1).drop_last() =~= ps.take(j as int));
                assert(ps.take(j + 1).last() == ps[j as int]);
                assert(params_text(ps.take(j + 1)) == params_text(ps.take(j as int)) + seq![';']
                    + param_text(ps[j as int]));
                assert(out@ =~= self@.name + params_text(ps.take(j + 1)));
            }
            j += 1;
        }
        out.push(':');
        let vchars = str_chars(self.value.as_str());
        let e = escape_chars(&vchars);
        append_chars(&mut out, &e);
        proof {
            assert(ps.take(ps.len() as int) =~= ps);
            assert(out@ =~= unfolded_text(self@));
        }
        let lines = fold_content(&out);
        let ghost fl = fold_lines(out@);
        let mut res: Vec<char> = Vec::new();
        let mut k: usize = 0;
        proof {
            assert(res@ =~= crlf_join(fl.take(0)));
        }
        while k < lines.len()
            invariant
                k <= lines.len(),
                fl == lines.deep_view(),
                fl.len() == lines@.len(),
                res@ == crlf_join(fl.take(k as int)),
            decreases lines.len() - k,
        {
            append_chars(&mut res, &lines[k]);
            res.push('\r');
            res.push('\n');
            proof {
                assert(lines@[k as int]@ == fl[k as int]);
                assert(fl.take(k + 1).drop_last() =~= fl.take(k as int));
                assert(fl.take(k + 1).last() == fl[k as int]);
                assert(crlf_join(fl.take(k + 1)) == crlf_join(fl.take(k as int)) + fl[k as int]
                    + seq!['\r', '\n']);
                assert(res@ =~= crlf_join(fl.take(k + 1)));
            }
            k += 1;
        }
        proof {
            assert(fl.take(fl.len() as int) =~= fl);
            assert(res@ =~= rendered_line(self@));
        }
        chars_to_string(&res)
    }
}

} // verus!
