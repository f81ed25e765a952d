//! The verification rule: a pure decision on a product and the number of
//! categories and tags linked to it.

use crate::model::VerificationStatus;
use vstd::prelude::*;
use vstd::string::*;

verus! {

/// The lowest price that a verified product may have: the bit pattern of
/// 500.
pub const MIN_PRICE: u64 = 0x407F_4000_0000_0000;

/// The highest price that a verified product may have: the bit pattern of
/// 1 000 000 000.
pub const MAX_PRICE: u64 = 0x41CD_CD65_0000_0000;

/// The characters with the Unicode property White_Space: the ones that
/// trimming removes.
pub open spec fn is_whitespace(c: char) -> bool {
    let n: u32 = c as u32;
    ||| 0x09 <= n <= 0x0D
    ||| n == 0x20
    ||| n == 0x85
    ||| n == 0xA0
    ||| n == 0x1680
    ||| 0x2000 <= n <= 0x200A
    ||| n == 0x2028
    ||| n == 0x2029
    ||| n == 0x202F
    ||| n == 0x205F
    ||| n == 0x3000
}

/// A text is blank when trimming leaves nothing of it: every character is
/// white space.
pub open spec fn is_blank(s: Seq<char>) -> bool {
    forall|i: int| 0 <= i < s.len() ==> is_whitespace(#[trigger] s[i])
}

/// The rule itself: name, description and image reference are not blank, at
/// least one category and one tag are linked, and the price lies between
/// [`MIN_PRICE`] and [`MAX_PRICE`], both included. The price is compared by
/// its bit pattern: the patterns between these two are the ones of the
/// numbers between 500 and 1 000 000 000.
pub open spec fn passes(
    name: Seq<char>,
    description: Seq<char>,
    image_url: Seq<char>,
    price: u64,
    category_count: nat,
    tag_count: nat,
) -> bool {
    &&& !is_blank(name)
    &&& !is_blank(description)
    &&& !is_blank(image_url)
    &&& category_count >= 1
    &&& tag_count >= 1
    &&& MIN_PRICE <= price <= MAX_PRICE
}

/// The status that the rule gives.
pub open spec fn status_of(
    name: Seq<char>,
    description: Seq<char>,
    image_url: Seq<char>,
    price: u64,
    category_count: nat,
    tag_count: nat,
) -> VerificationStatus {
    if passes(name, description, image_url, price, category_count, tag_count) {
        VerificationStatus::Verified
    } else {
        VerificationStatus::Rejected
    }
}

/// The text sent to the vendor of a verified product.
pub open spec fn verified_message() -> Seq<char> {
    "Your product has been verified and is now live!"@
}

/// The text sent to the vendor of a product that is not verified.
pub open spec fn rejected_message() -> Seq<char> {
    "Your product verification failed. Please check the requirements."@
}

/// The text that goes with a status.
pub open spec fn message_of(status: VerificationStatus) -> Seq<char> {
    if status == VerificationStatus::Verified {
        verified_message()
    } else {
        rejected_message()
    }
}

/// What the evaluator returns: the status and the message for the vendor.
#[derive(Clone, Debug, PartialEq, Eq)]
pub struct Verdict {
    pub status: VerificationStatus,
    pub message: String,
}

/// Whether trimming removes the character.
pub fn is_whitespace_char(c: char) -> (r: bool)
    ensures
        r == is_whitespace(c),
{
    let n: u32 = c as u32;
    (0x09 <= n && n <= 0x0D) || n == 0x20 || n == 0x85 || n == 0xA0 || n == 0x1680 || (0x2000 <= n
        && n <= 0x200A) || n == 0x2028 || n == 0x2029 || n == 0x202F || n == 0x205F || n == 0x3000
}

/// Whether trimming `s` leaves nothing.
pub fn blank(s: &str) -> (r: bool)
    ensures
        r == is_blank(s@),
{
    let n = s.unicode_len();
    let mut i: usize = 0;
    while i < n
        invariant
            n == s@.len(),
            i <= n,
            forall|j: int| 0 <= j < i ==> is_whitespace(#[trigger] s@[j]),
        decreases n - i,
    {
        let c = s.get_char(i);
        if !is_whitespace_char(c) {
            return false;
        }
        i += 1;
    }
    true
}

/// The message for the vendor that goes with a status.
pub fn message_for(status: VerificationStatus) -> (r: String)
    ensures
        r@ == message_of(status),
{
    match status {
        VerificationStatus::Verified => String::from_str(
            "Your product has been verified and is now live!",
        ),
        _ => String::from_str("Your product verification failed. Please check the requirements."),
    }
}

/// Decides on a submitted product. The result depends on the arguments
/// alone: the same product with the same counts always gets the same status
/// and the same message.
pub fn evaluate(
    name: &str,
    description: &str,
    image_url: &str,
    price: u64,
    category_count: u64,
    tag_count: u64,
) -> (v: Verdict)
    ensures
        v.status == status_of(
            name@,
            description@,
            image_url@,
            price,
            category_count as nat,
            tag_count as nat,
        ),
        v.message@ == message_of(v.status),
{
    let ok = !blank(name) && !blank(description) && !blank(image_url) && category_count >= 1
        && tag_count >= 1 && MIN_PRICE <= price && price <= MAX_PRICE;
    let status = if ok {
        VerificationStatus::Verified
    } else {
        VerificationStatus::Rejected
    };
    Verdict { status, message: message_for(status) }
}

} // verus!
