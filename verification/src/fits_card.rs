//! FITS header cards: 80-byte records `KEYWORD = value / comment`, and the padding of
//! FITS data to whole 2880-byte blocks.
use vstd::prelude::*;
use vstd::string::{StrSliceExecFns, StringSliceAdditionalSpecFns};
use vstd::utf8::{encode_utf8, is_ascii_chars, is_ascii_chars_encode_utf8};
use crate::text::{decimal_chars, format_decimal, pad_left, pad_right, push_repeated, push_str, repeat_char};

verus! {

pub const FITS_BLOCK_SIZE: usize = 2880;

pub const FITS_CARD_SIZE: usize = 80;

/// The bytes of `padding_for(n)`: what tops `n` bytes up to whole FITS blocks.
pub fn padding_for(byte_count: usize) -> (padding: usize)
    ensures
        padding == (FITS_BLOCK_SIZE - byte_count % FITS_BLOCK_SIZE) % FITS_BLOCK_SIZE as int,
        padding < FITS_BLOCK_SIZE,
        (byte_count + padding) % FITS_BLOCK_SIZE as int == 0,
{
    (FITS_BLOCK_SIZE - byte_count % FITS_BLOCK_SIZE) % FITS_BLOCK_SIZE
}

/// The card holding `bytes`: its first 80 bytes, padded with spaces to 80.
pub open spec fn card_of(bytes: Seq<u8>) -> Seq<u8> {
    Seq::new(FITS_CARD_SIZE as nat, |i: int| if i < bytes.len() { bytes[i] } else { 0x20u8 })
}

/// The card holding the UTF-8 bytes of `text`, cut or padded to 80 bytes.
pub fn make_card(text: &str) -> (card: [u8; 80])
    ensures
        card@ == card_of(text.spec_bytes()),
{
    let mut card = [0x20u8; 80];
    let bytes = text.as_bytes();
    let copy_len = if bytes.len() < FITS_CARD_SIZE {
        bytes.len()
    } else {
        FITS_CARD_SIZE
    };
    let mut i: usize = 0;
    while i < copy_len
        invariant
            i <= copy_len,
            copy_len <= FITS_CARD_SIZE,
            copy_len <= bytes@.len(),
            bytes@ == text.spec_bytes(),
            copy_len == bytes@.len() || copy_len == FITS_CARD_SIZE,
            card@.len() == 80,
            forall|j: int| 0 <= j < i ==> card@[j] == bytes@[j],
            forall|j: int| i <= j < 80 ==> card@[j] == 0x20u8,
        decreases copy_len - i,
    {
        card[i] = bytes[i];
        i += 1;
    }
    assert(card@ =~= card_of(text.spec_bytes()));
    card
}

/// The text of a card: the keyword left-aligned in eight columns, `= `, the value in
/// twenty columns (right-aligned, or left-aligned), and ` / ` with the comment unless
/// the comment is empty (`format!("{keyword:<8}= {value:>20}")` and so on).
pub open spec fn card_text(
    keyword: Seq<char>,
    value: Seq<char>,
    comment: Seq<char>,
    right_aligned: bool,
) -> Seq<char> {
    let head = pad_right(keyword, 8) + "= "@ + if right_aligned {
        pad_left(value, 20)
    } else {
        pad_right(value, 20)
    };
    if comment.len() == 0 {
        head
    } else {
        head + " / "@ + comment
    }
}

/// The card for a keyword, a value and a comment.
pub open spec fn value_card_bytes(
    keyword: Seq<char>,
    value: Seq<char>,
    comment: Seq<char>,
    right_aligned: bool,
) -> Seq<u8> {
    card_of(encode_utf8(card_text(keyword, value, comment, right_aligned)))
}

/// Appends `s` padded with spaces on the right to `width` characters.
fn push_padded_right(out: &mut String, s: &str, width: usize)
    ensures
        final(out)@ == old(out)@ + pad_right(s@, width as nat),
{
    let len = s.unicode_len();
    push_str(out, s);
    if len < width {
        push_repeated(out, ' ', width - len);
    }
    assert(out@ =~= old(out)@ + pad_right(s@, width as nat));
}

/// Appends `s` padded with spaces on the left to `width` characters.
fn push_padded_left(out: &mut String, s: &str, width: usize)
    ensures
        final(out)@ == old(out)@ + pad_left(s@, width as nat),
{
    let len = s.unicode_len();
    if len < width {
        push_repeated(out, ' ', width - len);
    }
    push_str(out, s);
    assert(out@ =~= old(out)@ + pad_left(s@, width as nat));
}

/// The card `KEYWORD = value / comment`. The keyword must be at most eight bytes.
pub fn value_card(keyword: &str, value: &str, comment: &str, right_aligned: bool) -> (card: [u8;
    80])
    requires
        keyword.spec_bytes().len() <= 8,
    ensures
        card@ == value_card_bytes(keyword@, value@, comment@, right_aligned),
{
    let mut text = String::new();
    push_padded_right(&mut text, keyword, 8);
    push_str(&mut text, "= ");
    if right_aligned {
        push_padded_left(&mut text, value, 20);
    } else {
        push_padded_right(&mut text, value, 20);
    }
    if !comment.is_empty() {
        push_str(&mut text, " / ");
        push_str(&mut text, comment);
    }
    assert(text@ =~= card_text(keyword@, value@, comment@, right_aligned));
    make_card(text.as_str())
}

/// `s` with every `'` doubled, as FITS writes a quote inside a string value.
pub open spec fn escape_quotes(s: Seq<char>) -> Seq<char>
    decreases s.len(),
{
    if s.len() == 0 {
        Seq::empty()
    } else {
        escape_quotes(s.drop_last()) + if s.last() == '\'' {
            seq!['\'', '\'']
        } else {
            seq![s.last()]
        }
    }
}

/// The quoted FITS string value of `s`.
pub open spec fn quoted(s: Seq<char>) -> Seq<char> {
    seq!['\''] + escape_quotes(s) + seq!['\'']
}

/// The card for a logical value: `T` or `F`, right-aligned.
pub open spec fn logical_card_bytes(keyword: Seq<char>, value: bool, comment: Seq<char>) -> Seq<u8> {
    value_card_bytes(keyword, if value { seq!['T'] } else { seq!['F'] }, comment, true)
}

/// The card for an integer value, right-aligned.
pub open spec fn integer_card_bytes(keyword: Seq<char>, value: nat, comment: Seq<char>) -> Seq<u8> {
    value_card_bytes(keyword, decimal_chars(value), comment, true)
}

/// The card for a string value: quoted, quotes doubled, left-aligned.
pub open spec fn string_card_bytes(keyword: Seq<char>, value: Seq<char>, comment: Seq<char>) -> Seq<
    u8,
> {
    value_card_bytes(keyword, quoted(value), comment, false)
}

/// The card that ends a header.
pub open spec fn end_card_bytes() -> Seq<u8> {
    card_of(encode_utf8(seq!['E', 'N', 'D']))
}

/// The card `KEYWORD = T / comment` or `KEYWORD = F / comment`.
pub fn logical_card(keyword: &str, value: bool, comment: &str) -> (card: [u8; 80])
    requires
        keyword.spec_bytes().len() <= 8,
    ensures
        card@ == logical_card_bytes(keyword@, value, comment@),
{
    let text = if value {
        "T"
    } else {
        "F"
    };
    proof {
        reveal_strlit("T");
        reveal_strlit("F");
        assert("T"@ =~= seq!['T']);
        assert("F"@ =~= seq!['F']);
    }
    value_card(keyword, text, comment, true)
}

/// The card for an integer value.
pub fn integer_card(keyword: &str, value: u64, comment: &str) -> (card: [u8; 80])
    requires
        keyword.spec_bytes().len() <= 8,
    ensures
        card@ == integer_card_bytes(keyword@, value as nat, comment@),
{
    let text = format_decimal(value);
    value_card(keyword, text.as_str(), comment, true)
}

/// The card for a string value: quoted, with each quote inside doubled.
pub fn string_card(keyword: &str, value: &str, comment: &str) -> (card: [u8; 80])
    requires
        keyword.spec_bytes().len() <= 8,
    ensures
        card@ == string_card_bytes(keyword@, value@, comment@),
{
    let mut text = String::new();
    text.push('\'');
    let len = value.unicode_len();
    let mut i: usize = 0;
    while i < len
        invariant
            i <= len,
            len == value@.len(),
            text@ == seq!['\''] + escape_quotes(value@.subrange(0, i as int)),
        decreases len - i,
    {
        let c = value.get_char(i);
        if c == '\'' {
            text.push('\'');
            text.push('\'');
        } else {
            text.push(c);
        }
        proof {
            assert(value@.subrange(0, i + 1).drop_last() =~= value@.subrange(0, i as int));
        }
        i += 1;
        assert(text@ =~= seq!['\''] + escape_quotes(value@.subrange(0, i as int)));
    }
    text.push('\'');
    assert(value@.subrange(0, len as int) =~= value@);
    assert(text@ =~= quoted(value@));
    value_card(keyword, text.as_str(), comment, false)
}

/// The card `END`.
pub fn end_card() -> (card: [u8; 80])
    ensures
        card@ == end_card_bytes(),
{
    proof {
        reveal_strlit("END");
        assert("END"@ =~= seq!['E', 'N', 'D']);
    }
    make_card("END")
}

/// The bytes of ASCII characters.
pub open spec fn ascii_bytes(s: Seq<char>) -> Seq<u8> {
    s.map_values(|c: char| c as u8)
}

/// UTF-8 encodes a concatenation piece by piece.
pub proof fn lemma_encode_utf8_concat(a: Seq<char>, b: Seq<char>)
    ensures
        encode_utf8(a + b) == encode_utf8(a) + encode_utf8(b),
    decreases a.len(),
{
    if a.len() == 0 {
        assert(a + b =~= b);
        assert(encode_utf8(a) =~= Seq::<u8>::empty());
        assert(encode_utf8(a) + encode_utf8(b) =~= encode_utf8(b));
    } else {
        assert((a + b).drop_first() =~= a.drop_first() + b);
        assert((a + b)[0] == a[0]);
        lemma_encode_utf8_concat(a.drop_first(), b);
        assert(encode_utf8(a + b) =~= encode_utf8(a) + encode_utf8(b));
    }
}

/// ASCII characters encode as one byte each.
pub proof fn lemma_ascii_encoding(s: Seq<char>)
    requires
        is_ascii_chars(s),
    ensures
        encode_utf8(s) == ascii_bytes(s),
{
    is_ascii_chars_encode_utf8(s);
    assert(encode_utf8(s) =~= ascii_bytes(s));
}

/// The first eight bytes of a card are its keyword, padded with spaces, when the
/// keyword is at most eight ASCII characters.
pub proof fn lemma_card_keyword(
    keyword: Seq<char>,
    value: Seq<char>,
    comment: Seq<char>,
    right_aligned: bool,
)
    requires
        keyword.len() <= 8,
        is_ascii_chars(keyword),
    ensures
        value_card_bytes(keyword, value, comment, right_aligned).subrange(0, 8) == ascii_bytes(
            pad_right(keyword, 8),
        ),
{
    let text = card_text(keyword, value, comment, right_aligned);
    let padded = pad_right(keyword, 8);
    assert(padded.len() == 8);
    assert(is_ascii_chars(padded)) by {
        assert forall|i: int| 0 <= i < padded.len() implies '\0' <= #[trigger] padded[i] <= '\u{7f}' by {
            if i < keyword.len() {
                assert(padded[i] == keyword[i]);
            } else {
                assert(padded[i] == ' ');
            }
        }
    }
    let rest = text.subrange(8, text.len() as int);
    assert(text =~= padded + rest);
    lemma_encode_utf8_concat(padded, rest);
    lemma_ascii_encoding(padded);
    assert(value_card_bytes(keyword, value, comment, right_aligned).subrange(0, 8) =~= ascii_bytes(
        padded,
    ));
}

/// The first eight bytes of the `END` card.
pub proof fn lemma_end_card_keyword()
    ensures
        end_card_bytes().subrange(0, 8) == ascii_bytes(pad_right(seq!['E', 'N', 'D'], 8)),
{
    let end = seq!['E', 'N', 'D'];
    assert(is_ascii_chars(end));
    lemma_ascii_encoding(end);
    assert(end_card_bytes().subrange(0, 8) =~= ascii_bytes(pad_right(end, 8)));
}

} // verus!
