//! The names of the transaction types, as they stand in an input row.

use vstd::prelude::*;
use vstd::string::StringSliceAdditionalSpecFns;
use crate::transaction::TransactionType;

verus! {

/// An ASCII white-space byte: space, tab, line feed, form feed or carriage
/// return.
pub open spec fn is_blank(byte: u8) -> bool {
    byte == 0x20 || byte == 0x09 || byte == 0x0a || byte == 0x0c || byte == 0x0d
}

/// The lower-case form of an ASCII capital letter; every other byte is
/// itself.
pub open spec fn lower_case(byte: u8) -> u8 {
    if 'A' as u8 <= byte <= 'Z' as u8 {
        (byte + 0x20) as u8
    } else {
        byte
    }
}

/// The text without the blanks at its two ends.
pub open spec fn trimmed(text: Seq<u8>) -> Seq<u8>
    decreases text.len(),
{
    if text.len() > 0 && is_blank(text.first()) {
        trimmed(text.drop_first())
    } else if text.len() > 0 && is_blank(text.last()) {
        trimmed(text.drop_last())
    } else {
        text
    }
}

/// Whether `text` is the lower-case `name`, but for the case of its
/// letters.
pub open spec fn spells(text: Seq<u8>, name: Seq<u8>) -> bool {
    &&& text.len() == name.len()
    &&& forall|i: int| 0 <= i < text.len() ==> lower_case(#[trigger] text[i]) == name[i]
}

/// The name of a transaction type, in lower case.
pub open spec fn name_of(tx_type: TransactionType) -> Seq<u8> {
    match tx_type {
        TransactionType::Deposit => seq![
            'd' as u8,
            'e' as u8,
            'p' as u8,
            'o' as u8,
            's' as u8,
            'i' as u8,
            't' as u8,
        ],
        TransactionType::Withdrawal => seq![
            'w' as u8,
            'i' as u8,
            't' as u8,
            'h' as u8,
            'd' as u8,
            'r' as u8,
            'a' as u8,
            'w' as u8,
            'a' as u8,
            'l' as u8,
        ],
        TransactionType::Dispute => seq![
            'd' as u8,
            'i' as u8,
            's' as u8,
            'p' as u8,
            'u' as u8,
            't' as u8,
            'e' as u8,
        ],
        TransactionType::Resolve => seq![
            'r' as u8,
            'e' as u8,
            's' as u8,
            'o' as u8,
            'l' as u8,
            'v' as u8,
            'e' as u8,
        ],
        TransactionType::Chargeback => seq![
            'c' as u8,
            'h' as u8,
            'a' as u8,
            'r' as u8,
            'g' as u8,
            'e' as u8,
            'b' as u8,
            'a' as u8,
            'c' as u8,
            'k' as u8,
        ],
    }
}

/// The transaction type that a text names: the text is trimmed of blanks
/// and the case of its letters does not count.
pub open spec fn type_named(text: Seq<u8>) -> Option<TransactionType> {
    let word = trimmed(text);
    if spells(word, name_of(TransactionType::Deposit)) {
        Some(TransactionType::Deposit)
    } else if spells(word, name_of(TransactionType::Withdrawal)) {
        Some(TransactionType::Withdrawal)
    } else if spells(word, name_of(TransactionType::Dispute)) {
        Some(TransactionType::Dispute)
    } else if spells(word, name_of(TransactionType::Resolve)) {
        Some(TransactionType::Resolve)
    } else if spells(word, name_of(TransactionType::Chargeback)) {
        Some(TransactionType::Chargeback)
    } else {
        None
    }
}

/// The part of a text between its leading and its trailing blanks is the
/// trimmed text.
proof fn lemma_trimmed_is_the_middle(text: Seq<u8>, start: int, end: int)
    requires
        0 <= start <= end <= text.len(),
        forall|i: int| 0 <= i < start ==> is_blank(#[trigger] text[i]),
        forall|i: int| end <= i < text.len() ==> is_blank(#[trigger] text[i]),
        start < end ==> !is_blank(text[start]) && !is_blank(text[end - 1]),
    ensures
        trimmed(text) == text.subrange(start, end),
    decreases text.len(),
{
    if text.len() > 0 && is_blank(text.first()) {
        let rest = text.drop_first();
        if start == 0 {
            // Nothing but blanks: the middle is empty wherever it is cut.
            assert(start == end);
            assert forall|i: int| 0 <= i < rest.len() implies is_blank(#[trigger] rest[i]) by {
                assert(rest[i] == text[i + 1]);
            }
            lemma_trimmed_is_the_middle(rest, 0, 0);
            assert(rest.subrange(0, 0) =~= text.subrange(start, end));
        } else {
            assert forall|i: int| 0 <= i < start - 1 implies is_blank(#[trigger] rest[i]) by {
                assert(rest[i] == text[i + 1]);
            }
            assert forall|i: int| end - 1 <= i < rest.len() implies is_blank(
                #[trigger] rest[i],
            ) by {
                assert(rest[i] == text[i + 1]);
            }
            lemma_trimmed_is_the_middle(rest, start - 1, end - 1);
            assert(rest.subrange(start - 1, end - 1) =~= text.subrange(start, end));
        }
    } else if text.len() > 0 && is_blank(text.last()) {
        let rest = text.drop_last();
        assert(start == 0) by {
            if start > 0 {
                assert(is_blank(text[0]));
            }
        }
        assert(start < end) by {
            if start == end {
                assert(is_blank(text[0]));
            }
        }
        assert(end < text.len());
        assert forall|i: int| end <= i < rest.len() implies is_blank(#[trigger] rest[i]) by {
            assert(rest[i] == text[i]);
        }
        lemma_trimmed_is_the_middle(rest, start, end);
        assert(rest.subrange(start, end) =~= text.subrange(start, end));
    } else if text.len() > 0 {
        assert(start == 0) by {
            if start > 0 {
                assert(is_blank(text[0]));
            }
        }
        assert(end == text.len()) by {
            if end < text.len() {
                assert(is_blank(text[text.len() - 1]));
            }
        }
        assert(text.subrange(start, end) =~= text);
    } else {
        assert(text.subrange(start, end) =~= text);
    }
}

fn blank(byte: u8) -> (r: bool)
    ensures
        r == is_blank(byte),
{
    byte == 0x20 || byte == 0x09 || byte == 0x0a || byte == 0x0c || byte == 0x0d
}

fn to_lower_case(byte: u8) -> (r: u8)
    ensures
        r == lower_case(byte),
{
    if 'A' as u8 <= byte && byte <= 'Z' as u8 {
        byte + 0x20
    } else {
        byte
    }
}

/// Whether the bytes from `start` up to `end` spell `name`.
fn spells_name<const N: usize>(bytes: &[u8], start: usize, end: usize, name: &[u8; N]) -> (r:
    bool)
    requires
        start <= end <= bytes@.len(),
    ensures
        r == spells(bytes@.subrange(start as int, end as int), name@),
{
    let ghost word = bytes@.subrange(start as int, end as int);
    if end - start != N {
        return false;
    }
    let mut i: usize = 0;
    while i < N
        invariant
            i <= N,
            start <= end <= bytes@.len(),
            end - start == N,
            name@.len() == N,
            word == bytes@.subrange(start as int, end as int),
            forall|k: int| 0 <= k < i ==> lower_case(#[trigger] word[k]) == name@[k],
        decreases N - i,
    {
        if to_lower_case(bytes[start + i]) != name[i] {
            assert(lower_case(word[i as int]) != name@[i as int]);
            return false;
        }
        i += 1;
    }
    true
}

impl TransactionType {
    /// The transaction type that the text names. Blanks around the name and
    /// the case of its letters do not count.
    pub fn from_name(text: &str) -> (r: Option<TransactionType>)
        ensures
            r == type_named(text.spec_bytes()),
    {
        let bytes = text.as_bytes();
        let mut start: usize = 0;
        while start < bytes.len() && blank(bytes[start])
            invariant
                start <= bytes@.len(),
                forall|i: int| 0 <= i < start ==> is_blank(#[trigger] bytes@[i]),
            decreases bytes@.len() - start,
        {
            start += 1;
        }
        let mut end: usize = bytes.len();
        while end > start && blank(bytes[end - 1])
            invariant
                start <= end <= bytes@.len(),
                forall|i: int| end <= i < bytes@.len() ==> is_blank(#[trigger] bytes@[i]),
            decreases end - start,
        {
            end -= 1;
        }
        proof {
            lemma_trimmed_is_the_middle(bytes@, start as int, end as int);
        }
        let deposit = ['d' as u8, 'e' as u8, 'p' as u8, 'o' as u8, 's' as u8, 'i' as u8, 't' as u8];
        let withdrawal = [
            'w' as u8,
            'i' as u8,
            't' as u8,
            'h' as u8,
            'd' as u8,
            'r' as u8,
            'a' as u8,
            'w' as u8,
            'a' as u8,
            'l' as u8,
        ];
        let dispute = ['d' as u8, 'i' as u8, 's' as u8, 'p' as u8, 'u' as u8, 't' as u8, 'e' as u8];
        let resolve = ['r' as u8, 'e' as u8, 's' as u8, 'o' as u8, 'l' as u8, 'v' as u8, 'e' as u8];
        let chargeback = [
            'c' as u8,
            'h' as u8,
            'a' as u8,
            'r' as u8,
            'g' as u8,
            'e' as u8,
            'b' as u8,
            'a' as u8,
            'c' as u8,
            'k' as u8,
        ];
        assert(deposit@ =~= name_of(TransactionType::Deposit));
        assert(withdrawal@ =~= name_of(TransactionType::Withdrawal));
        assert(dispute@ =~= name_of(TransactionType::Dispute));
        assert(resolve@ =~= name_of(TransactionType::Resolve));
        assert(chargeback@ =~= name_of(TransactionType::Chargeback));
        if spells_name(bytes, start, end, &deposit) {
            Some(TransactionType::Deposit)
        } else if spells_name(bytes, start, end, &withdrawal) {
            Some(TransactionType::Withdrawal)
        } else if spells_name(bytes, start, end, &dispute) {
            Some(TransactionType::Dispute)
        } else if spells_name(bytes, start, end, &resolve) {
            Some(TransactionType::Resolve)
        } else if spells_name(bytes, start, end, &chargeback) {
            Some(TransactionType::Chargeback)
        } else {
            None
        }
    }
}

} // verus!
