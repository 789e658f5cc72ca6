//! Field names and byte strings of generated code.

use crate::text::{hex, hex_text};
use vstd::prelude::*;
use vstd::string::{StrSliceExecFns, StringExecFns};

verus! {

/// ASCII letters and digits.
pub open spec fn is_alphanumeric(c: char) -> bool {
    let u = c as u32;
    48 <= u <= 57 || 65 <= u <= 90 || 97 <= u <= 122
}

/// The lower case of an ASCII letter; other characters stay.
pub open spec fn lower(c: char) -> char {
    let u = c as u32;
    if 65 <= u <= 90 {
        (u + 32) as char
    } else {
        c
    }
}

/// The letters and digits of `s` in lower case, with one underscore between
/// what other characters separate (and one at the end where they end `s`).
pub open spec fn fragment(s: Seq<char>) -> Seq<char>
    decreases s.len(),
{
    if s.len() == 0 {
        Seq::empty()
    } else {
        let head = fragment(s.drop_last());
        if is_alphanumeric(s.last()) {
            head.push(lower(s.last()))
        } else if head.len() == 0 || head.last() == '_' {
            head
        } else {
            head.push('_')
        }
    }
}

/// `s` without an underscore at its end.
pub open spec fn without_end_mark(s: Seq<char>) -> Seq<char> {
    if s.len() > 0 && s.last() == '_' {
        s.drop_last()
    } else {
        s
    }
}

/// The snake_case identifier fragment for a display name.
pub open spec fn sanitized(name: Seq<char>) -> Seq<char> {
    let trimmed = without_end_mark(fragment(name));
    if trimmed.len() == 0 {
        "unnamed"@
    } else {
        trimmed
    }
}

/// Lower case letters and digits.
pub open spec fn is_word_char(c: char) -> bool {
    let u = c as u32;
    48 <= u <= 57 || 97 <= u <= 122
}

/// What a fragment looks like: it starts with a letter or digit, and no two
/// underscores follow one another.
pub open spec fn is_fragment(s: Seq<char>) -> bool {
    &&& s.len() > 0 ==> is_word_char(s[0])
    &&& forall|i: int| 0 <= i < s.len() ==> is_word_char(#[trigger] s[i]) || s[i] == '_'
    &&& forall|i: int|
        0 < i < s.len() && #[trigger] s[i] == '_' ==> is_word_char(s[i - 1])
}

proof fn lemma_fragment(s: Seq<char>)
    ensures
        is_fragment(fragment(s)),
    decreases s.len(),
{
    if s.len() > 0 {
        lemma_fragment(s.drop_last());
        let head = fragment(s.drop_last());
        let whole = fragment(s);
        assert(is_alphanumeric(s.last()) ==> is_word_char(lower(s.last())));
        assert forall|i: int| 0 <= i < whole.len() implies is_word_char(#[trigger] whole[i])
            || whole[i] == '_' by {
            if i < head.len() {
                assert(whole[i] == head[i]);
            }
        }
        assert forall|i: int| 0 < i < whole.len() && #[trigger] whole[i] == '_' implies is_word_char(
            whole[i - 1],
        ) by {
            if i < head.len() {
                assert(whole[i] == head[i] && whole[i - 1] == head[i - 1]);
            } else {
                assert(whole[i - 1] == head.last());
                assert(is_word_char(head[i - 1]) || head[i - 1] == '_');
            }
        }
    }
}

/// Whatever the display name, the fragment is a snake_case word: not empty,
/// made of lower case letters, digits and single underscores, none of them at
/// the start or the end.
pub proof fn law_sanitized_is_snake_case(name: Seq<char>)
    ensures
        sanitized(name).len() > 0,
        is_fragment(sanitized(name)),
        is_word_char(sanitized(name).last()),
{
    let whole = fragment(name);
    let cut = without_end_mark(whole);
    lemma_fragment(name);
    reveal_strlit("unnamed");
    assert forall|i: int| 0 <= i < cut.len() implies is_word_char(#[trigger] cut[i]) || cut[i]
        == '_' by {
        assert(cut[i] == whole[i]);
    }
    assert forall|i: int| 0 < i < cut.len() && #[trigger] cut[i] == '_' implies is_word_char(
        cut[i - 1],
    ) by {
        assert(cut[i] == whole[i] && cut[i - 1] == whole[i - 1]);
    }
    if cut.len() > 0 {
        assert(cut[0] == whole[0]);
        assert(cut.last() == whole[cut.len() - 1]);
        if cut.len() < whole.len() {
            assert(whole[whole.len() - 1] == '_');
        }
    }
}

/// Sanitize a display name into a snake_case identifier fragment.
pub fn sanitize(name: &str) -> (word: String)
    ensures
        word@ == sanitized(name@),
{
    let mut out = String::new();
    let mut last_underscore = true;
    let len: usize = name.unicode_len();
    let mut i: usize = 0;
    assert(name@.take(0) =~= Seq::<char>::empty());
    while i < len
        invariant
            i <= len == name@.len(),
            out@ == fragment(name@.take(i as int)),
            last_underscore == (out@.len() == 0 || out@.last() == '_'),
        decreases len - i,
    {
        let c: char = name.get_char(i);
        proof {
            let here = name@.take(i + 1);
            assert(here.drop_last() =~= name@.take(i as int));
            assert(here.last() == c);
        }
        let u: u32 = c as u32;
        if (48 <= u && u <= 57) || (97 <= u && u <= 122) {
            out.push(c);
            last_underscore = false;
        } else if 65 <= u && u <= 90 {
            out.push((u as u8 + 32) as char);
            last_underscore = false;
        } else if !last_underscore {
            out.push('_');
            last_underscore = true;
        }
        i += 1;
    }
    assert(name@.take(i as int) =~= name@);
    let text = out.as_str();
    let mut end: usize = text.unicode_len();
    assert(text@.subrange(0, end as int) =~= text@);
    if end > 0 && last_underscore {
        end -= 1;
        assert(text@.subrange(0, end as int) =~= text@.drop_last());
    }
    if end == 0 {
        "unnamed".to_owned()
    } else {
        text.substring_char(0, end).to_owned()
    }
}

/// The source form of a byte inside a byte string.
pub open spec fn escaped_byte(b: u8) -> Seq<char> {
    if b == 0x22 {
        "\\\""@
    } else if b == 0x5C {
        "\\\\"@
    } else if 0x20 <= b <= 0x7E {
        seq![b as char]
    } else {
        "\\x"@ + hex(b as nat, 2, true)
    }
}

/// The source form of the inside of a byte string.
pub open spec fn escaped_bytes(bytes: Seq<u8>) -> Seq<char>
    decreases bytes.len(),
{
    if bytes.len() == 0 {
        Seq::empty()
    } else {
        escaped_bytes(bytes.drop_last()) + escaped_byte(bytes.last())
    }
}

/// The source form of a byte string.
pub open spec fn byte_string(bytes: Seq<u8>) -> Seq<char> {
    "b\""@ + escaped_bytes(bytes) + "\""@
}

/// Render a byte string literal.
pub fn escape_byte_string(bytes: &[u8]) -> (text: String)
    ensures
        text@ == byte_string(bytes@),
{
    let mut out = "b\"".to_owned();
    let mut i: usize = 0;
    assert(bytes@.take(0) =~= Seq::<u8>::empty());
    assert(out@ =~= "b\""@ + escaped_bytes(bytes@.take(0)));
    while i < bytes.len()
        invariant
            i <= bytes@.len(),
            out@ == "b\""@ + escaped_bytes(bytes@.take(i as int)),
        decreases bytes@.len() - i,
    {
        let b: u8 = bytes[i];
        let ghost before = out@;
        if b == 0x22 {
            out.append("\\\"");
        } else if b == 0x5C {
            out.append("\\\\");
        } else if 0x20 <= b && b <= 0x7E {
            out.push(b as char);
            assert(out@ =~= before + seq![b as char]);
        } else {
            let mut escape = "\\x".to_owned();
            escape.append(hex_text(b as u128, 2, true).as_str());
            out.append(escape.as_str());
        }
        proof {
            let here = bytes@.take(i + 1);
            assert(here.drop_last() =~= bytes@.take(i as int));
            assert(out@ == before + escaped_byte(b));
            assert(out@ =~= "b\""@ + escaped_bytes(here));
        }
        i += 1;
    }
    assert(bytes@.take(i as int) =~= bytes@);
    out.append("\"");
    out
}

/// How many of the names are at least `len` characters long.
pub open spec fn count_longer(names: Seq<Seq<char>>, len: nat) -> nat
    decreases names.len(),
{
    if names.len() == 0 {
        0
    } else {
        count_longer(names.drop_last(), len) + if names.last().len() >= len {
            1nat
        } else {
            0nat
        }
    }
}

/// Fewer names are longer than a name that is among them than are as long.
pub proof fn lemma_count_longer(names: Seq<Seq<char>>, name: Seq<char>)
    ensures
        count_longer(names, name.len() + 1) <= count_longer(names, name.len()),
        names.contains(name) ==> count_longer(names, name.len() + 1) < count_longer(
            names,
            name.len(),
        ),
    decreases names.len(),
{
    if names.len() > 0 {
        lemma_count_longer(names.drop_last(), name);
        if names.contains(name) && names.last() != name {
            let i = choose|i: int| 0 <= i < names.len() && names[i] == name;
            assert(names.drop_last()[i] == name);
        }
    }
}

/// The first of `name`, `name_`, `name__`, ... that is not among `names`.
pub open spec fn first_free(name: Seq<char>, names: Seq<Seq<char>>) -> Seq<char>
    decreases count_longer(names, name.len()),
{
    if names.contains(name) {
        proof {
            lemma_count_longer(names, name);
        }
        first_free(name.push('_'), names)
    } else {
        name
    }
}

/// The name of the field for an entry, given the names that are taken.
pub open spec fn unique_name(index: u16, source: Seq<char>, names: Seq<Seq<char>>) -> Seq<char> {
    first_free("x"@ + hex(index as nat, 4, false) + "_"@ + sanitized(source), names)
}

/// A chosen field name is not taken.
pub proof fn law_first_free_is_free(name: Seq<char>, names: Seq<Seq<char>>)
    ensures
        !names.contains(first_free(name, names)),
    decreases count_longer(names, name.len()),
{
    if names.contains(name) {
        lemma_count_longer(names, name);
        law_first_free_is_free(name.push('_'), names);
    }
}

} // verus!
