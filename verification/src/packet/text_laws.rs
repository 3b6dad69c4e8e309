//! Names as text: what joining labels by dots and cutting a text at its
//! dots do to each other, and the text of a name that is read.

use vstd::prelude::*;
use vstd::utf8::{
    decode_utf8, encode_utf8, encode_utf8_decode_utf8, encode_utf8_valid_utf8, is_ascii_chars,
    is_ascii_chars_encode_utf8, valid_utf8,
};
use crate::packet::fqdn::{all_ascii, dot_free, dotted, split_dots, valid_label, DOT};

verus! {

/// The pieces of a text are at least one.
pub proof fn lemma_split_has_pieces(text: Seq<u8>)
    ensures
        split_dots(text).len() >= 1,
    decreases text.len(),
{
    if text.len() > 0 {
        lemma_split_has_pieces(text.drop_last());
    }
}

/// Bytes without a dot, added to a text, lengthen its last piece.
pub proof fn lemma_split_plain_tail(text: Seq<u8>, tail: Seq<u8>)
    requires
        forall|i: int| 0 <= i < tail.len() ==> tail[i] != DOT,
    ensures
        split_dots(text).len() >= 1,
        split_dots(text + tail) == split_dots(text).update(
            split_dots(text).len() - 1,
            split_dots(text).last() + tail,
        ),
    decreases tail.len(),
{
    lemma_split_has_pieces(text);
    let pieces = split_dots(text);
    if tail.len() == 0 {
        assert(text + tail =~= text);
        assert(pieces.last() + tail =~= pieces.last());
        assert(pieces.update(pieces.len() - 1, pieces.last()) =~= pieces);
    } else {
        let shorter = tail.drop_last();
        lemma_split_plain_tail(text, shorter);
        assert((text + tail).drop_last() =~= text + shorter);
        assert((text + tail).last() == tail.last());
        let before = split_dots(text + shorter);
        assert(before.last().push(tail.last()) =~= pieces.last() + tail);
        assert(before.update(before.len() - 1, before.last().push(tail.last())) =~= pieces.update(
            pieces.len() - 1,
            pieces.last() + tail,
        ));
    }
}

/// The pieces of labels joined by dots are the labels, where no label
/// holds a dot.
pub proof fn lemma_split_of_dotted(labels: Seq<Seq<u8>>)
    requires
        labels.len() >= 1,
        dot_free(labels),
    ensures
        split_dots(dotted(labels)) == labels,
    decreases labels.len(),
{
    let last = labels.last();
    assert forall|i: int| 0 <= i < last.len() implies last[i] != DOT by {
        assert(labels[labels.len() - 1][i] != DOT);
    }
    if labels.len() == 1 {
        lemma_split_plain_tail(Seq::empty(), last);
        assert(Seq::<u8>::empty() + last =~= last);
        assert(split_dots(Seq::<u8>::empty()) =~= seq![Seq::<u8>::empty()]);
        assert(Seq::<u8>::empty() + last =~= last);
        assert(seq![Seq::<u8>::empty()].update(0, last) =~= labels);
    } else {
        let front = labels.drop_last();
        assert(dot_free(front)) by {
            assert forall|i: int, j: int|
                0 <= i < front.len() && 0 <= j < front[i].len() implies #[trigger] front[i][j]
                != DOT by {
                assert(labels[i][j] != DOT);
            }
        }
        lemma_split_of_dotted(front);
        let text = dotted(front) + seq![DOT];
        assert(text.drop_last() =~= dotted(front));
        assert(split_dots(text) == front.push(Seq::<u8>::empty()));
        lemma_split_plain_tail(text, last);
        assert(Seq::<u8>::empty() + last =~= last);
        assert(front.push(Seq::<u8>::empty()).update(front.len() as int, last) =~= labels);
    }
}

/// The labels joined by dots, from the first label.
pub proof fn lemma_dotted_first(labels: Seq<Seq<u8>>)
    requires
        labels.len() >= 2,
    ensures
        dotted(labels) == labels[0] + seq![DOT] + dotted(labels.drop_first()),
    decreases labels.len(),
{
    let rest = labels.drop_first();
    if labels.len() == 2 {
        assert(labels.drop_last() =~= seq![labels[0]]);
        assert(rest =~= seq![labels[1]]);
        assert(dotted(labels.drop_last()) == labels[0]);
        assert(dotted(rest) == labels[1]);
    } else {
        lemma_dotted_first(labels.drop_last());
        assert(labels.drop_last().drop_first() =~= rest.drop_last());
        assert(dotted(labels) =~= labels[0] + seq![DOT] + dotted(rest));
    }
}

/// A name joined by dots is longer than the name without its first label.
pub proof fn lemma_dotted_longer(labels: Seq<Seq<u8>>)
    requires
        labels.len() >= 1,
        labels[0].len() >= 1,
    ensures
        dotted(labels).len() > dotted(labels.drop_first()).len(),
{
    if labels.len() >= 2 {
        lemma_dotted_first(labels);
    } else {
        assert(labels.drop_first() =~= Seq::<Seq<u8>>::empty());
    }
}

/// The text cut at its dots and joined by dots again is the text.
pub proof fn lemma_dotted_of_split(text: Seq<u8>)
    ensures
        dotted(split_dots(text)) == text,
    decreases text.len(),
{
    lemma_split_has_pieces(text);
    if text.len() == 0 {
        assert(dotted(seq![Seq::<u8>::empty()]) =~= text);
    } else {
        let shorter = text.drop_last();
        let before = split_dots(shorter);
        lemma_dotted_of_split(shorter);
        lemma_split_has_pieces(shorter);
        if text.last() == DOT {
            let pieces = before.push(Seq::<u8>::empty());
            assert(pieces.drop_last() =~= before);
            assert(dotted(pieces) =~= shorter + seq![DOT]);
            assert(shorter + seq![DOT] =~= text);
        } else {
            let longer = before.last().push(text.last());
            let pieces = before.update(before.len() - 1, longer);
            if before.len() == 1 {
                assert(dotted(before) == before[0]);
                assert(dotted(pieces) =~= shorter.push(text.last()));
            } else {
                assert(pieces.drop_last() =~= before.drop_last());
                assert(dotted(pieces) =~= dotted(before.drop_last()) + seq![DOT] + longer);
                assert(dotted(before) =~= dotted(before.drop_last()) + seq![DOT] + before.last());
                assert(dotted(pieces) =~= shorter.push(text.last()));
            }
            assert(shorter.push(text.last()) =~= text);
        }
    }
}

/// The text whose characters are the bytes, one ASCII character each.
pub open spec fn ascii_text(bytes: Seq<u8>) -> Seq<char> {
    Seq::new(bytes.len(), |i: int| bytes[i] as char)
}

/// ASCII bytes are the UTF-8 of the text that holds them as characters.
pub proof fn lemma_ascii_text(bytes: Seq<u8>)
    requires
        all_ascii(bytes),
    ensures
        valid_utf8(bytes),
        decode_utf8(bytes) == ascii_text(bytes),
        encode_utf8(ascii_text(bytes)) == bytes,
{
    let text = ascii_text(bytes);
    assert(is_ascii_chars(text));
    is_ascii_chars_encode_utf8(text);
    assert(encode_utf8(text) =~= bytes);
    encode_utf8_valid_utf8(text);
    encode_utf8_decode_utf8(text);
}

/// The labels of a valid name, joined by dots, are ASCII.
pub proof fn lemma_dotted_is_ascii(labels: Seq<Seq<u8>>)
    requires
        forall|i: int| 0 <= i < labels.len() ==> valid_label(#[trigger] labels[i]),
    ensures
        all_ascii(dotted(labels)),
    decreases labels.len(),
{
    if labels.len() == 1 {
        assert(valid_label(labels[0]));
    } else if labels.len() > 1 {
        let front = labels.drop_last();
        assert forall|i: int| 0 <= i < front.len() implies valid_label(#[trigger] front[i]) by {
            assert(valid_label(labels[i]));
        }
        lemma_dotted_is_ascii(front);
        assert(valid_label(labels.last()));
    }
}

/// A text that is cut at its dots into labels, which are then joined by
/// dots and read as UTF-8, is the text.
pub proof fn lemma_text_round_trip(text: Seq<char>)
    ensures
        valid_utf8(dotted(split_dots(encode_utf8(text)))),
        decode_utf8(dotted(split_dots(encode_utf8(text)))) == text,
{
    lemma_dotted_of_split(encode_utf8(text));
    encode_utf8_valid_utf8(text);
    encode_utf8_decode_utf8(text);
}

} // verus!
