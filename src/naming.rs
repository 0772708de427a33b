use vstd::prelude::*;

verus! {

/// What the specifier character `spec` after a `%` stands for: `e` the
/// extension, `s` the stem, `%` itself; any other character stands for nothing.
pub open spec fn replacement(spec: char, stem: Seq<char>, ext: Seq<char>) -> Seq<char> {
    if spec == 'e' {
        ext
    } else if spec == 's' {
        stem
    } else if spec == '%' {
        seq!['%']
    } else {
        Seq::empty()
    }
}

/// The output name that the format `f` gives: each `%` and the character after
/// it are replaced by what that specifier stands for, a trailing lone `%` is
/// dropped, and every other character is kept.
pub open spec fn expand(f: Seq<char>, stem: Seq<char>, ext: Seq<char>) -> Seq<char>
    decreases f.len(),
{
    if f.len() == 0 {
        Seq::empty()
    } else if f[0] != '%' {
        seq![f[0]] + expand(f.drop_first(), stem, ext)
    } else if f.len() == 1 {
        Seq::empty()
    } else {
        replacement(f[1], stem, ext) + expand(f.subrange(2, f.len() as int), stem, ext)
    }
}

/// What remains to be expanded of `rest`, when `pending` says that a `%` was
/// just read before it.
pub open spec fn expand_rest(rest: Seq<char>, pending: bool, stem: Seq<char>, ext: Seq<char>) -> Seq<char> {
    if !pending {
        expand(rest, stem, ext)
    } else if rest.len() == 0 {
        Seq::empty()
    } else {
        replacement(rest[0], stem, ext) + expand(rest.drop_first(), stem, ext)
    }
}

/// Relies on `String::push`: appends one character.
#[verifier::external_body]
fn push_char(s: &mut String, c: char)
    ensures
        final(s)@ == old(s)@.push(c),
{
    s.push(c)
}

/// Builds an output file name from a format string: `%e` is the extension
/// (without its dot), `%s` the stem, `%%` a single `%`; any other specifier is
/// dropped with its `%`, as is a trailing `%`.
pub fn format_output(format_str: &str, stem: &str, ext: &str) -> (r: String)
    ensures
        r@ == expand(format_str@, stem@, ext@),
{
    let mut result = String::new();
    let mut pending = false;
    let ghost f = format_str@;
    let ghost mut idx: int = 0;
    proof {
        vstd::string::axiom_spec_iter(format_str);
        assert(f.subrange(0, f.len() as int) =~= f);
        assert(result@ + expand(f, stem@, ext@) =~= expand(f, stem@, ext@));
    }
    for c in it: format_str.chars()
        invariant
            it.seq() == f,
            idx == it.index(),
            0 <= idx <= f.len(),
            result@ + expand_rest(f.subrange(idx, f.len() as int), pending, stem@, ext@)
                == expand(f, stem@, ext@),
    {
        let ghost rest = f.subrange(idx, f.len() as int);
        let ghost next_rest = f.subrange(idx + 1, f.len() as int);
        let ghost prev = result@;
        proof {
            assert(rest[0] == c);
            assert(rest.drop_first() =~= next_rest);
        }
        if pending {
            if c == 'e' {
                result.append(ext);
            } else if c == 's' {
                result.append(stem);
            } else if c == '%' {
                push_char(&mut result, '%');
            }
            pending = false;
            proof {
                assert(result@ =~= prev + replacement(c, stem@, ext@));
                assert(result@ + expand(next_rest, stem@, ext@) =~= prev + (replacement(c, stem@, ext@)
                    + expand(next_rest, stem@, ext@)));
            }
        } else if c == '%' {
            pending = true;
            proof {
                if rest.len() > 1 {
                    assert(next_rest[0] == rest[1]);
                    assert(next_rest.drop_first() =~= rest.subrange(2, rest.len() as int));
                }
            }
        } else {
            push_char(&mut result, c);
            proof {
                assert(result@ + expand(next_rest, stem@, ext@) =~= prev + (seq![c] + expand(next_rest, stem@, ext@)));
            }
        }
        proof {
            idx = idx + 1;
        }
    }
    result
}

} // verus!
