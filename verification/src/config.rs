//! Reading the list of upstream credentials from its configured form: one
//! line of text, the credentials separated by commas.

use vstd::prelude::*;
use vstd::string::StrSliceExecFns;
use crate::schema::string_views;

verus! {

/// A character that counts as white space: the characters with the Unicode
/// property `White_Space`.
pub open spec fn is_white_space(c: char) -> bool {
    let code = c as u32;
    ||| 0x09 <= code <= 0x0d
    ||| code == 0x20
    ||| code == 0x85
    ||| code == 0xa0
    ||| code == 0x1680
    ||| 0x2000 <= code <= 0x200a
    ||| code == 0x2028
    ||| code == 0x2029
    ||| code == 0x202f
    ||| code == 0x205f
    ||| code == 0x3000
}

/// The number of white-space characters that `text` begins with.
pub open spec fn leading_space(text: Seq<char>) -> int
    decreases text.len(),
{
    if text.len() > 0 && is_white_space(text[0]) {
        1 + leading_space(text.skip(1))
    } else {
        0
    }
}

/// The number of white-space characters that `text` ends with.
pub open spec fn trailing_space(text: Seq<char>) -> int
    decreases text.len(),
{
    if text.len() > 0 && is_white_space(text.last()) {
        1 + trailing_space(text.drop_last())
    } else {
        0
    }
}

/// `text` without the white space at its two ends.
pub open spec fn trimmed(text: Seq<char>) -> Seq<char> {
    if leading_space(text) >= text.len() {
        Seq::empty()
    } else {
        text.subrange(leading_space(text), text.len() - trailing_space(text))
    }
}

/// The place of the first comma in `text`, or the length of `text` where it
/// has none.
pub open spec fn first_comma(text: Seq<char>) -> int
    decreases text.len(),
{
    if text.len() == 0 || text[0] == ',' {
        0
    } else {
        1 + first_comma(text.skip(1))
    }
}

/// The credentials that a configured line stands for: the pieces between its
/// commas, each without the white space at its ends. A line without a comma
/// is one piece, and so is an empty line.
pub open spec fn key_list_of(raw: Seq<char>) -> Seq<Seq<char>>
    decreases raw.len(),
{
    let comma = first_comma(raw);
    if 0 <= comma < raw.len() {
        seq![trimmed(raw.take(comma))] + key_list_of(raw.skip(comma + 1))
    } else {
        seq![trimmed(raw)]
    }
}

/// The first comma is where a comma stands with none before it.
proof fn lemma_first_comma(text: Seq<char>, place: int)
    requires
        0 <= place <= text.len(),
        forall|j: int| 0 <= j < place ==> text[j] != ',',
        place == text.len() || text[place] == ',',
    ensures
        first_comma(text) == place,
    decreases place,
{
    if place > 0 {
        let rest = text.skip(1);
        assert forall|j: int| 0 <= j < place - 1 implies rest[j] != ',' by {
            assert(rest[j] == text[j + 1]);
        }
        lemma_first_comma(rest, place - 1);
    }
}

/// The leading white space ends where the first other character stands.
proof fn lemma_leading_space(text: Seq<char>, count: int)
    requires
        0 <= count <= text.len(),
        forall|j: int| 0 <= j < count ==> is_white_space(text[j]),
        count == text.len() || !is_white_space(text[count]),
    ensures
        leading_space(text) == count,
    decreases count,
{
    if count > 0 {
        let rest = text.skip(1);
        assert forall|j: int| 0 <= j < count - 1 implies is_white_space(rest[j]) by {
            assert(rest[j] == text[j + 1]);
        }
        lemma_leading_space(rest, count - 1);
    }
}

/// The trailing white space begins behind the last other character.
proof fn lemma_trailing_space(text: Seq<char>, count: int)
    requires
        0 <= count <= text.len(),
        forall|j: int| text.len() - count <= j < text.len() ==> is_white_space(text[j]),
        count == text.len() || !is_white_space(text[text.len() - count - 1]),
    ensures
        trailing_space(text) == count,
    decreases count,
{
    if count > 0 {
        let rest = text.drop_last();
        assert forall|j: int| rest.len() - (count - 1) <= j < rest.len() implies is_white_space(
            rest[j],
        ) by {
            assert(rest[j] == text[j]);
        }
        lemma_trailing_space(rest, count - 1);
    }
}

/// Whether a character counts as white space.
pub fn char_is_white_space(c: char) -> (space: bool)
    ensures
        space == is_white_space(c),
{
    let code: u32 = c as u32;
    (0x09 <= code && code <= 0x0d) || code == 0x20 || code == 0x85 || code == 0xa0 || code == 0x1680
        || (0x2000 <= code && code <= 0x200a) || code == 0x2028 || code == 0x2029 || code == 0x202f
        || code == 0x205f || code == 0x3000
}

/// The piece of `raw` between the characters `start` and `end`, without the
/// white space at its ends.
fn trimmed_piece(raw: &str, start: usize, end: usize) -> (piece: String)
    requires
        start <= end <= raw@.len(),
    ensures
        piece@ == trimmed(raw@.subrange(start as int, end as int)),
{
    let ghost text = raw@.subrange(start as int, end as int);
    let mut from = start;
    while from < end && char_is_white_space(raw.get_char(from))
        invariant
            start <= from <= end <= raw@.len(),
            text == raw@.subrange(start as int, end as int),
            forall|j: int| 0 <= j < from - start ==> is_white_space(text[j]),
        decreases end - from,
    {
        from += 1;
    }
    proof {
        lemma_leading_space(text, from - start);
    }
    if from == end {
        proof {
            reveal_strlit("");
        }
        return "".to_string();
    }
    let mut to = end;
    while to > from && char_is_white_space(raw.get_char(to - 1))
        invariant
            start <= from < to <= end <= raw@.len(),
            text == raw@.subrange(start as int, end as int),
            forall|j: int| to - start <= j < text.len() ==> is_white_space(text[j]),
            !is_white_space(text[from - start]),
        decreases to - from,
    {
        to -= 1;
        if to == from {
            // The character at `from` is no white space, so the walk has stopped before.
            assert(false);
        }
    }
    proof {
        lemma_trailing_space(text, end - to);
        assert(text.subrange(from - start, text.len() - (end - to)) =~= raw@.subrange(
            from as int,
            to as int,
        ));
    }
    raw.substring_char(from, to).to_string()
}

/// Reads the list of credentials from a configured line: splits it at the
/// commas and takes the white space off the ends of every piece. Pieces are
/// kept even where they are empty.
pub fn parse_key_list(raw: &str) -> (keys: Vec<String>)
    ensures
        string_views(keys@) == key_list_of(raw@),
        keys@.len() >= 1,
{
    let len = raw.unicode_len();
    let mut keys: Vec<String> = Vec::new();
    let mut start: usize = 0;
    let mut at: usize = 0;
    assert(raw@.skip(0) =~= raw@);
    assert(string_views(keys@) + key_list_of(raw@) =~= key_list_of(raw@));
    while at < len
        invariant
            len == raw@.len(),
            start <= at <= len,
            forall|j: int| start <= j < at ==> raw@[j] != ',',
            string_views(keys@) + key_list_of(raw@.skip(start as int)) == key_list_of(raw@),
        decreases len - at,
    {
        if raw.get_char(at) == ',' {
            let ghost rest = raw@.skip(start as int);
            let piece = trimmed_piece(raw, start, at);
            proof {
                assert forall|j: int| 0 <= j < at - start implies rest[j] != ',' by {
                    assert(rest[j] == raw@[start + j]);
                }
                lemma_first_comma(rest, at - start);
                assert(rest.take(at - start) =~= raw@.subrange(start as int, at as int));
                assert(rest.skip(at - start + 1) =~= raw@.skip(at + 1));
            }
            let ghost before = string_views(keys@);
            keys.push(piece);
            proof {
                assert(string_views(keys@) =~= before + seq![piece@]);
                assert(string_views(keys@) + key_list_of(raw@.skip(at + 1)) =~= before + (seq![piece@]
                    + key_list_of(raw@.skip(at + 1))));
            }
            start = at + 1;
        }
        at += 1;
    }
    let ghost rest = raw@.skip(start as int);
    let piece = trimmed_piece(raw, start, len);
    proof {
        assert forall|j: int| 0 <= j < len - start implies rest[j] != ',' by {
            assert(rest[j] == raw@[start + j]);
        }
        lemma_first_comma(rest, len - start);
        assert(rest =~= raw@.subrange(start as int, len as int));
    }
    let ghost before = string_views(keys@);
    keys.push(piece);
    assert(string_views(keys@) =~= before + seq![piece@]);
    keys
}

} // verus!
