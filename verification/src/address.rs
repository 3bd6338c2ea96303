//! Global post identifiers: `shard#author#sequence`.
//!
//! An identifier names the storage shard that holds a post, the identity of
//! its author and the author's sequence number, so that any actor can find
//! the shard without a directory.

use crate::decimal::{
    decimal_text, decimal_value, format_decimal, is_digit, lemma_decimal_round_trip, parse_decimal,
};
use crate::identity::{principal_of_text, principal_text, Identity};
use crate::text::{
    find, lemma_position, lemma_split_joined, lemma_split_nonempty, lemma_split_single, split,
    to_chars,
};
use vstd::prelude::*;
use vstd::string::*;

verus! {

/// Why a text is no post identifier.
#[derive(Clone, Copy, Debug, PartialEq, Eq, Structural)]
pub enum ParseError {
    /// The text does not split at `#` into exactly three segments.
    SegmentCount,
    /// The first or the second segment is not the text of an identity.
    InvalidIdentity,
    /// The third segment is not an unsigned 64-bit integer.
    InvalidSequence,
}

/// What a post identifier names.
#[derive(Debug)]
pub struct PostAddress {
    /// The storage shard that holds the post.
    pub shard: Identity,
    /// The caller who created the post.
    pub author: Identity,
    /// The author's sequence number of the post.
    pub index: u64,
}

/// The mathematical value of a [`PostAddress`].
pub struct PostAddressView {
    pub shard: Seq<u8>,
    pub author: Seq<u8>,
    pub index: u64,
}

impl View for PostAddress {
    type V = PostAddressView;

    open spec fn view(&self) -> PostAddressView {
        PostAddressView { shard: self.shard@, author: self.author@, index: self.index }
    }
}

/// The identifier of the post with sequence number `index` that `author`
/// created and `shard` holds.
pub open spec fn post_id_text(shard: Seq<u8>, author: Seq<u8>, index: u64) -> Seq<char> {
    principal_text(shard) + seq!['#'] + principal_text(author) + seq!['#'] + decimal_text(
        index as nat,
    )
}

/// What the identifier `id` names, or the reason why it names nothing. The
/// segment count is tested first, then the two identities, then the number.
pub open spec fn post_id_address(id: Seq<char>) -> Result<PostAddressView, ParseError> {
    let parts = split(id, '#');
    if parts.len() != 3 {
        Err(ParseError::SegmentCount)
    } else {
        match (principal_of_text(parts[0]), principal_of_text(parts[1])) {
            (Some(shard), Some(author)) => match decimal_value(parts[2]) {
                Some(index) => Ok(PostAddressView { shard, author, index }),
                None => Err(ParseError::InvalidSequence),
            },
            _ => Err(ParseError::InvalidIdentity),
        }
    }
}

/// Whether the text of the identity `bytes` holds no `#` and reads back as
/// `bytes`. The text of every identity that [`Identity::to_text`] has
/// written is of this kind.
pub open spec fn text_is_faithful(bytes: Seq<u8>) -> bool {
    &&& !principal_text(bytes).contains('#')
    &&& principal_of_text(principal_text(bytes)) == Some(bytes)
}

/// Reading an identifier that was written from three components gives the
/// three components back, for identities whose text is faithful.
pub proof fn lemma_address_round_trip(shard: Seq<u8>, author: Seq<u8>, index: u64)
    requires
        text_is_faithful(shard),
        text_is_faithful(author),
    ensures
        post_id_address(post_id_text(shard, author, index)) == Ok::<PostAddressView, ParseError>(
            PostAddressView { shard, author, index },
        ),
{
    let a = principal_text(shard);
    let b = principal_text(author);
    let c = decimal_text(index as nat);
    lemma_decimal_round_trip(index as nat);
    assert(!is_digit('#'));
    assert(post_id_text(shard, author, index) =~= a + seq!['#'] + (b + seq!['#'] + c));
    lemma_split_joined(a, '#', b + seq!['#'] + c);
    lemma_split_joined(b, '#', c);
    lemma_split_single(c, '#');
    let parts = split(post_id_text(shard, author, index), '#');
    assert(parts =~= seq![a, b, c]);
}

/// Writes the identifier of a post.
pub fn get_post_id(bucket: &Identity, user: &Identity, index: u64) -> (id: String)
    ensures
        id@ == post_id_text(bucket@, user@, index),
        post_id_address(id@) == Ok::<PostAddressView, ParseError>(
            PostAddressView { shard: bucket@, author: user@, index },
        ),
{
    let mut id = bucket.to_text();
    let author = user.to_text();
    let number = format_decimal(index);
    proof {
        reveal_strlit("#");
        assert("#"@ =~= seq!['#']);
    }
    id.append("#");
    id.append(author.as_str());
    id.append("#");
    id.append(number.as_str());
    proof {
        lemma_address_round_trip(bucket@, user@, index);
    }
    id
}

/// Reads a post identifier.
pub fn check_post_id(post_id: &str) -> (address: Result<PostAddress, ParseError>)
    ensures
        match address {
            Ok(found) => post_id_address(post_id@) == Ok::<PostAddressView, ParseError>(found@),
            Err(reason) => post_id_address(post_id@) == Err::<PostAddressView, ParseError>(reason),
        },
{
    let chars = to_chars(post_id);
    let ghost s = chars@;
    let first = find(&chars, 0, '#');
    proof {
        assert(s.skip(0) =~= s);
        lemma_position(s, '#');
    }
    if first == chars.len() {
        return Err(ParseError::SegmentCount);
    }
    let ghost rest = s.skip(first + 1);
    let second = find(&chars, first + 1, '#');
    proof {
        lemma_position(rest, '#');
        assert(split(s, '#') =~= seq![s.take(first as int)] + split(rest, '#'));
        if second == chars@.len() {
            assert(split(rest, '#') =~= seq![rest]);
        }
    }
    if second == chars.len() {
        return Err(ParseError::SegmentCount);
    }
    let ghost last = s.skip(second + 1);
    let third = find(&chars, second + 1, '#');
    proof {
        assert(rest.skip(second - first) =~= last);
        assert(split(rest, '#') =~= seq![rest.take(second - first - 1)] + split(last, '#'));
        lemma_position(last, '#');
        if third < chars@.len() {
            let tail = last.skip(third - second);
            lemma_split_nonempty(tail, '#');
            assert(split(last, '#') =~= seq![last.take(third - second - 1)] + split(tail, '#'));
        }
    }
    if third != chars.len() {
        return Err(ParseError::SegmentCount);
    }
    proof {
        assert(split(last, '#') =~= seq![last]);
        assert(split(rest, '#') =~= seq![rest.take(second - first - 1), last]);
        assert(split(s, '#') =~= seq![s.take(first as int), rest.take(second - first - 1), last]);
        assert(s.take(first as int) =~= s.subrange(0, first as int));
        assert(rest.take(second - first - 1) =~= s.subrange(first + 1, second as int));
    }
    let shard = Identity::from_text(post_id.substring_char(0, first));
    let author = Identity::from_text(post_id.substring_char(first + 1, second));
    match (shard, author) {
        (Some(shard), Some(author)) => match parse_decimal(&chars, second + 1) {
            Some(index) => Ok(PostAddress { shard, author, index }),
            None => Err(ParseError::InvalidSequence),
        },
        _ => Err(ParseError::InvalidIdentity),
    }
}

} // verus!
