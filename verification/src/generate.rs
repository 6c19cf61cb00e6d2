//! Making passwords: a given number of characters, drawn in equal shares from
//! the classes that were asked for, in random order.

use rand::distributions::{Distribution, Uniform};
use rand::seq::SliceRandom;
use vstd::array::array_as_slice;
use vstd::prelude::*;

verus! {

/// The capital letters.
pub const UPPERCASE: [u8; 26] = [
    65, 66, 67, 68, 69, 70, 71, 72, 73, 74, 75, 76, 77, 78, 79, 80, 81, 82, 83, 84, 85, 86, 87,
    88, 89, 90,
];

/// The small letters.
pub const LOWERCASE: [u8; 26] = [
    97, 98, 99, 100, 101, 102, 103, 104, 105, 106, 107, 108, 109, 110, 111, 112, 113, 114, 115,
    116, 117, 118, 119, 120, 121, 122,
];

/// The digits.
pub const DIGIT: [u8; 10] = [48, 49, 50, 51, 52, 53, 54, 55, 56, 57];

/// The printable characters of ASCII that are neither letter nor digit nor
/// space.
pub const SPECIAL: [u8; 32] = [
    33, 34, 35, 36, 37, 38, 39, 40, 41, 42, 43, 44, 45, 46, 47, 58, 59, 60, 61, 62, 63, 64, 91,
    92, 93, 94, 95, 96, 123, 124, 125, 126,
];

/// The longest password that is made.
pub const MAX_PASSWORD_LEN: usize = 8192;

/// What a password is to be made of.
#[derive(Debug, Clone, Copy, PartialEq, Eq, Structural)]
pub struct PasswordOption {
    /// The number of characters.
    pub len: usize,
    /// Whether capital letters are to be among them.
    pub uppercase: bool,
    /// Whether small letters are to be among them.
    pub lowercase: bool,
    /// Whether digits are to be among them.
    pub digit: bool,
    /// Whether special characters are to be among them.
    pub special: bool,
}

/// What a list of alphabets holds.
pub open spec fn alphabets(list: Seq<&'static [u8]>) -> Seq<Seq<u8>> {
    Seq::new(list.len(), |i: int| list[i]@)
}

/// The number of characters that the class of index `i` gives: an equal share
/// of all, and one more for each of the first classes while the remainder
/// lasts.
pub open spec fn quota(share: nat, remainder: nat, i: int) -> nat {
    if i < remainder {
        share + 1
    } else {
        share
    }
}

/// Every character of `part` is of the alphabet `class`.
pub open spec fn all_of(part: Seq<u8>, class: Seq<u8>) -> bool {
    forall|j: int| 0 <= j < part.len() ==> class.contains(#[trigger] part[j])
}

/// `drawn` is made of one part for each of the first `n` classes, in their
/// order, each part of the class's quota of characters of that class.
pub open spec fn is_drawn(
    drawn: Seq<u8>,
    classes: Seq<Seq<u8>>,
    share: nat,
    remainder: nat,
    n: int,
) -> bool
    decreases n,
{
    if n <= 0 {
        drawn.len() == 0
    } else {
        let q = quota(share, remainder, n - 1);
        &&& drawn.len() >= q
        &&& all_of(drawn.subrange(drawn.len() - q, drawn.len() as int), classes[n - 1])
        &&& is_drawn(drawn.take(drawn.len() - q), classes, share, remainder, n - 1)
    }
}

/// Bytes of ASCII as text.
pub open spec fn as_text(bytes: Seq<u8>) -> Seq<char> {
    Seq::new(bytes.len(), |i: int| bytes[i] as char)
}

impl PasswordOption {
    /// The alphabets of the classes that were asked for: capital letters,
    /// small letters, digits, special characters, in this order.
    pub open spec fn classes(&self) -> Seq<Seq<u8>> {
        (if self.uppercase {
            seq![UPPERCASE@]
        } else {
            seq![]
        }) + (if self.lowercase {
            seq![LOWERCASE@]
        } else {
            seq![]
        }) + (if self.digit {
            seq![DIGIT@]
        } else {
            seq![]
        }) + (if self.special {
            seq![SPECIAL@]
        } else {
            seq![]
        })
    }

    /// Whether a password can be made: of at least one class, and of one
    /// character at least and 8192 at most.
    pub open spec fn is_served(&self) -> bool {
        self.classes().len() > 0 && 0 < self.len <= MAX_PASSWORD_LEN
    }

    /// `text` is a password as it was asked for: some order of characters
    /// drawn class by class, each class giving its quota.
    pub open spec fn is_password(&self, text: Seq<char>) -> bool {
        let classes = self.classes();
        let share = self.len as nat / classes.len();
        let remainder = self.len as nat % classes.len();
        exists|drawn: Seq<u8>, mixed: Seq<u8>|
            {
                &&& #[trigger] is_drawn(drawn, classes, share, remainder, classes.len() as int)
                &&& mixed.to_multiset() == drawn.to_multiset()
                &&& text == #[trigger] as_text(mixed)
            }
    }

    /// The alphabets of the classes that were asked for.
    pub fn chars(&self) -> (list: Vec<&'static [u8]>)
        ensures
            alphabets(list@) == self.classes(),
            forall|i: int| 0 <= i < list@.len() ==> (#[trigger] list@[i])@.len() > 0,
    {
        let mut list: Vec<&'static [u8]> = Vec::new();
        if self.uppercase {
            list.push(array_as_slice(&UPPERCASE));
        }
        if self.lowercase {
            list.push(array_as_slice(&LOWERCASE));
        }
        if self.digit {
            list.push(array_as_slice(&DIGIT));
        }
        if self.special {
            list.push(array_as_slice(&SPECIAL));
        }
        assert(alphabets(list@) =~= self.classes());
        list
    }
}

/// Draws from the uniform distribution of the crate rand over the numbers
/// below `bound`, with the generator of the thread. Which number comes is
/// open.
#[verifier::external_body]
fn random_index(bound: usize) -> (index: usize)
    requires
        bound > 0,
    ensures
        index < bound,
{
    Uniform::new(0, bound).sample(&mut rand::thread_rng())
}

/// Calls `shuffle` of the crate rand with the generator of the thread, which
/// swaps the items about in place. Which order comes is open.
#[verifier::external_body]
fn shuffle(bytes: &mut Vec<u8>)
    ensures
        final(bytes)@.len() == old(bytes)@.len(),
        final(bytes)@.to_multiset() == old(bytes)@.to_multiset(),
{
    bytes.shuffle(&mut rand::thread_rng());
}

/// `String::push` appends the character it is given.
pub assume_specification[ String::push ](text: &mut String, c: char)
    ensures
        final(text)@ == old(text)@.push(c),
;

/// Sets out drawn characters as a password: mixes them and makes text of
/// them.
pub fn mix(drawn: Vec<u8>) -> (text: String)
    ensures
        exists|mixed: Seq<u8>|
            mixed.to_multiset() == drawn@.to_multiset() && text@ == #[trigger] as_text(mixed),
        text@.len() == drawn@.len(),
{
    let mut bytes = drawn;
    shuffle(&mut bytes);
    let mut text = String::new();
    let mut i: usize = 0;
    while i < bytes.len()
        invariant
            i <= bytes.len(),
            text@ == as_text(bytes@.take(i as int)),
        decreases bytes.len() - i,
    {
        text.push(bytes[i] as char);
        i = i + 1;
        assert(text@ =~= as_text(bytes@.take(i as int)));
    }
    assert(bytes@.take(i as int) =~= bytes@);
    text
}

/// Draws the characters of a password, class by class.
pub fn draw(classes: &Vec<&'static [u8]>, len: usize) -> (drawn: Vec<u8>)
    requires
        classes@.len() > 0,
        forall|i: int| 0 <= i < classes@.len() ==> (#[trigger] classes@[i])@.len() > 0,
    ensures
        is_drawn(
            drawn@,
            alphabets(classes@),
            len as nat / classes@.len(),
            len as nat % classes@.len(),
            classes@.len() as int,
        ),
{
    let share: usize = len / classes.len();
    let remainder: usize = len % classes.len();
    assert(remainder > 0 ==> share < len) by {
        let n = classes.len() as int;
        vstd::arithmetic::div_mod::lemma_fundamental_div_mod(len as int, n);
        assert(share >= 0 && n >= 1 ==> n * share >= share) by (nonlinear_arith);
    }
    let mut drawn: Vec<u8> = Vec::new();
    let mut i: usize = 0;
    while i < classes.len()
        invariant
            i <= classes.len(),
            remainder > 0 ==> share < len,
            forall|k: int| 0 <= k < classes@.len() ==> (#[trigger] classes@[k])@.len() > 0,
            is_drawn(drawn@, alphabets(classes@), share as nat, remainder as nat, i as int),
        decreases classes.len() - i,
    {
        let class: &'static [u8] = classes[i];
        let count: usize = if i < remainder {
            share + 1
        } else {
            share
        };
        let ghost before = drawn@;
        let mut taken: usize = 0;
        while taken < count
            invariant
                taken <= count,
                class@.len() > 0,
                drawn@.len() == before.len() + taken,
                drawn@.take(before.len() as int) == before,
                all_of(drawn@.subrange(before.len() as int, drawn@.len() as int), class@),
            decreases count - taken,
        {
            let ghost so_far = drawn@;
            let pick = class[random_index(class.len())];
            drawn.push(pick);
            taken = taken + 1;
            proof {
                assert(drawn@.take(before.len() as int) =~= so_far.take(before.len() as int));
                let part = drawn@.subrange(before.len() as int, drawn@.len() as int);
                let old_part = so_far.subrange(before.len() as int, so_far.len() as int);
                assert forall|j: int| 0 <= j < part.len() implies class@.contains(
                    #[trigger] part[j],
                ) by {
                    if j < old_part.len() {
                        assert(part[j] == old_part[j]);
                    } else {
                        assert(part[j] == pick);
                    }
                }
            }
        }
        proof {
            let q = quota(share as nat, remainder as nat, i as int);
            assert(q == count);
            assert(alphabets(classes@)[i as int] == class@);
            assert(drawn@.subrange(drawn@.len() - q, drawn@.len() as int) =~= drawn@.subrange(
                before.len() as int,
                drawn@.len() as int,
            ));
            assert(drawn@.take(drawn@.len() - q) =~= before);
        }
        i = i + 1;
    }
    drawn
}

/// Characters drawn from `n` classes are as many as the quotas of these
/// classes come to.
pub proof fn lemma_drawn_len(
    drawn: Seq<u8>,
    classes: Seq<Seq<u8>>,
    share: nat,
    remainder: nat,
    n: int,
)
    requires
        0 <= n,
        is_drawn(drawn, classes, share, remainder, n),
    ensures
        drawn.len() == n * share + if n < remainder {
            n
        } else {
            remainder as int
        },
    decreases n,
{
    if n > 0 {
        let q = quota(share, remainder, n - 1);
        let rest = drawn.take(drawn.len() - q);
        lemma_drawn_len(rest, classes, share, remainder, n - 1);
        assert(rest.len() == drawn.len() - q);
        assert((n - 1) * share + share == n * share) by (nonlinear_arith);
    } else {
        assert(n * share == 0) by (nonlinear_arith)
            requires
                n == 0,
        ;
    }
}

/// Makes a password as it was asked for. Nothing is made, and the text is
/// empty, where no class was asked for, or no character, or more than 8192.
pub fn make_password(option: &PasswordOption) -> (text: String)
    ensures
        if option.is_served() {
            option.is_password(text@) && text@.len() == option.len
        } else {
            text@.len() == 0
        },
{
    let chars = option.chars();
    if chars.len() == 0 || option.len == 0 || option.len > MAX_PASSWORD_LEN {
        return String::new();
    }
    let drawn = draw(&chars, option.len);
    proof {
        let n = chars@.len() as int;
        let share = option.len as nat / chars@.len();
        let remainder = option.len as nat % chars@.len();
        lemma_drawn_len(drawn@, alphabets(chars@), share, remainder, n);
        vstd::arithmetic::div_mod::lemma_fundamental_div_mod(option.len as int, n);
        assert(n * share == n * (option.len as int / n));
    }
    mix(drawn)
}

} // verus!
