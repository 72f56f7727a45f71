//! CSV row encoding with the standard quoting rules: a field is quoted when
//! it holds a comma, a double quote, or a line break, and quotes inside a
//! quoted field are doubled. Rows end with a newline.

use vstd::prelude::*;

verus! {

/// Whether `c` occurs in `s`.
pub open spec fn has_char(s: Seq<char>, c: char) -> bool {
    exists|i: int| 0 <= i < s.len() && s[i] == c
}

/// Whether a field must be quoted.
pub open spec fn needs_quote(f: Seq<char>) -> bool {
    has_char(f, ',') || has_char(f, '"') || has_char(f, '\n') || has_char(f, '\r')
}

/// Doubles every double-quote character.
pub open spec fn esc_quotes(f: Seq<char>) -> Seq<char>
    decreases f.len(),
{
    if f.len() == 0 {
        f
    } else {
        let front = esc_quotes(f.drop_last());
        if f.last() == '"' {
            front + seq!['"', '"']
        } else {
            front.push(f.last())
        }
    }
}

/// One encoded field.
pub open spec fn enc_field(f: Seq<char>) -> Seq<char> {
    if needs_quote(f) {
        seq!['"'] + esc_quotes(f) + seq!['"']
    } else {
        f
    }
}

pub open spec fn enc_fields(fields: Seq<Seq<char>>) -> Seq<char>
    decreases fields.len(),
{
    if fields.len() == 0 {
        Seq::<char>::empty()
    } else if fields.len() == 1 {
        enc_field(fields[0])
    } else {
        enc_fields(fields.drop_last()) + seq![','] + enc_field(fields.last())
    }
}

/// One encoded CSV row, newline-terminated.
pub open spec fn csv_row(fields: Seq<Seq<char>>) -> Seq<char> {
    enc_fields(fields) + seq!['\n']
}

fn field_needs_quote(v: &[char]) -> (r: bool)
    ensures
        r == needs_quote(v@),
{
    let mut i: usize = 0;
    while i < v.len()
        invariant
            i <= v@.len(),
            forall|m: int|
                0 <= m < i ==> v@[m] != ',' && v@[m] != '"' && v@[m] != '\n' && v@[m] != '\r',
        decreases v@.len() - i,
    {
        let c = v[i];
        if c == ',' || c == '"' || c == '\n' || c == '\r' {
            return true;
        }
        i = i + 1;
    }
    false
}

fn append_escaped(out: &mut Vec<char>, v: &[char])
    ensures
        final(out)@ == old(out)@ + esc_quotes(v@),
{
    let ghost base = out@;
    let mut i: usize = 0;
    proof {
        assert(base + esc_quotes(v@.take(0)) =~= base);
    }
    while i < v.len()
        invariant
            i <= v@.len(),
            out@ == base + esc_quotes(v@.take(i as int)),
        decreases v@.len() - i,
    {
        let c = v[i];
        proof {
            let y = v@.take(i + 1);
            assert(y.drop_last() =~= v@.take(i as int));
            assert(y.last() == v@[i as int]);
        }
        if c == '"' {
            out.push('"');
            out.push('"');
            proof {
                assert(base + esc_quotes(v@.take(i + 1)) =~= (base + esc_quotes(
                    v@.take(i as int),
                )).push('"').push('"'));
            }
        } else {
            out.push(c);
            proof {
                assert(base + esc_quotes(v@.take(i + 1)) =~= (base + esc_quotes(
                    v@.take(i as int),
                )).push(v@[i as int]));
            }
        }
        i = i + 1;
    }
    proof {
        assert(v@.take(v@.len() as int) =~= v@);
    }
}

/// Encodes one CSV row from the given field values.
pub fn encode_csv_row(fields: &Vec<String>) -> (r: String)
    ensures
        r@ == csv_row(fields.deep_view()),
{
    let ghost dv = fields.deep_view();
    let mut out: Vec<char> = Vec::new();
    proof {
        assert(out@ =~= enc_fields(dv.take(0)));
    }
    let mut i: usize = 0;
    while i < fields.len()
        invariant
            i <= fields@.len(),
            dv == fields.deep_view(),
            dv.len() == fields@.len(),
            out@ == enc_fields(dv.take(i as int)),
        decreases fields@.len() - i,
    {
        if i > 0 {
            out.push(',');
        }
        let fv = crate::chars::str_chars(fields[i].as_str());
        proof {
            assert(dv[i as int] == fields@[i as int]@);
            assert(fv@ == dv[i as int]);
        }
        if field_needs_quote(fv.as_slice()) {
            out.push('"');
            append_escaped(&mut out, fv.as_slice());
            out.push('"');
        } else {
            crate::chars::append_chars(&mut out, fv.as_slice());
        }
        proof {
            assert(dv.take(i + 1).drop_last() =~= dv.take(i as int));
            assert(dv.take(i + 1).last() == dv[i as int]);
            if i == 0 {
                assert(enc_fields(dv.take(1)) == enc_field(dv.take(1)[0]));
                assert(out@ =~= enc_fields(dv.take(i + 1)));
            } else {
                assert(enc_fields(dv.take(i + 1)) == enc_fields(dv.take(i as int)) + seq![',']
                    + enc_field(dv[i as int]));
                assert(out@ =~= enc_fields(dv.take(i + 1)));
            }
        }
        i = i + 1;
    }
    out.push('\n');
    proof {
        assert(dv.take(dv.len() as int) =~= dv);
        assert(out@ =~= csv_row(dv));
    }
    crate::chars::string_from_chars(out.as_slice())
}

} // verus!
