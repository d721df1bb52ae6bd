use vstd::prelude::*;
use vstd::string::StringSliceAdditionalSpecFns;
use vstd::utf8::{decode_utf8, valid_utf8};
use crate::error::FixedStringError;

verus! {

/// `n` zero-valued units.
pub open spec fn zeros(n: nat) -> Seq<u8> {
    Seq::new(n, |_i: int| 0u8)
}

/// `storage` with `units` written over it from position `at` on.
pub open spec fn spliced(storage: Seq<u8>, at: int, units: Seq<u8>) -> Seq<u8> {
    storage.take(at) + units + storage.skip(at + units.len())
}

/// The unit that stands for `c`: its low eight bits.
pub open spec fn unit_of(c: char) -> u8 {
    (c as u32 % 256) as u8
}

/// The operations shared by fixed strings of every capacity.
pub trait FixedStringRef {
    /// The units that hold content, in order.
    spec fn content(&self) -> Seq<u8>;

    /// Every storage unit, used or not.
    spec fn storage(&self) -> Seq<u8>;

    /// The fixed number of storage units.
    spec fn cap(&self) -> nat;

    /// The content as text, when it is valid UTF-8.
    fn as_str<'a>(&'a self) -> (r: Option<&'a str>)
        ensures
            r is Some <==> valid_utf8(self.content()),
            r matches Some(s) ==> s.spec_bytes() == self.content() && s@ == decode_utf8(
                self.content(),
            ),
    ;

    /// Whether the content fills the whole capacity.
    fn is_full(&self) -> (r: bool)
        ensures
            r == (self.content().len() == self.cap()),
    ;

    /// The number of units that hold content.
    fn length(&self) -> (r: usize)
        ensures
            r == self.content().len(),
            r <= self.cap(),
    ;

    /// The capacity.
    fn capacity(&self) -> (r: usize)
        ensures
            r == self.cap(),
    ;

    /// Empties the string and zeroes every storage unit.
    fn clear(&mut self)
        ensures
            final(self).cap() == old(self).cap(),
            final(self).content() == Seq::<u8>::empty(),
            final(self).storage() == zeros(old(self).cap()),
    ;

    /// Sets the content of an empty string.
    fn assign(&mut self, string: &str) -> (r: Result<(), FixedStringError>)
        ensures
            final(self).cap() == old(self).cap(),
            r is Ok <==> old(self).content().len() == 0 && string.spec_bytes().len() <= old(
                self,
            ).cap(),
            old(self).content().len() != 0 ==> r == Err::<(), _>(
                FixedStringError::AlreadyAssigned,
            ),
            old(self).content().len() == 0 && string.spec_bytes().len() > old(self).cap() ==> r
                == Err::<(), _>(FixedStringError::Overflow),
            r is Ok ==> final(self).content() == string.spec_bytes(),
            r is Ok ==> final(self).storage() == spliced(old(self).storage(), 0, string.spec_bytes()),
            r is Err ==> final(self).content() == old(self).content() && final(self).storage()
                == old(self).storage(),
    ;

    /// Appends the UTF-8 units of `string`.
    fn push(&mut self, string: &str) -> (r: Result<(), FixedStringError>)
        ensures
            final(self).cap() == old(self).cap(),
            r is Ok <==> old(self).content().len() + string.spec_bytes().len() <= old(self).cap(),
            r is Err ==> r == Err::<(), _>(FixedStringError::Overflow) && final(self).content()
                == old(self).content() && final(self).storage() == old(self).storage(),
            r is Ok ==> final(self).content() == old(self).content() + string.spec_bytes(),
            r is Ok ==> final(self).storage() == spliced(
                old(self).storage(),
                old(self).content().len() as int,
                string.spec_bytes(),
            ),
    ;

    /// Appends one unit: the low eight bits of `character`.
    fn push_char(&mut self, character: char) -> (r: Result<(), FixedStringError>)
        ensures
            final(self).cap() == old(self).cap(),
            r is Ok <==> old(self).content().len() < old(self).cap(),
            r is Err ==> r == Err::<(), _>(FixedStringError::Overflow) && final(self).content()
                == old(self).content() && final(self).storage() == old(self).storage(),
            r is Ok ==> final(self).content() == old(self).content().push(unit_of(character)),
            r is Ok ==> final(self).storage() == old(self).storage().update(
                old(self).content().len() as int,
                unit_of(character),
            ),
    ;

    /// The storage unit at `index`, which may lie past the content but not
    /// past the capacity.
    fn get<'a>(&'a self, index: usize) -> (r: Result<&'a u8, FixedStringError>)
        ensures
            r is Ok <==> index < self.cap(),
            r matches Err(e) ==> e == FixedStringError::InvalidIndex,
            r matches Ok(v) ==> *v == self.storage()[index as int],
            r matches Ok(v) ==> (index < self.content().len() ==> *v == self.content()[index as int]),
    ;

    /// The storage unit at `index`, for writing.
    fn get_mut<'a>(&'a mut self, index: usize) -> (r: Result<&'a mut u8, FixedStringError>)
        ensures
            r is Ok <==> index < old(self).cap(),
            r matches Err(e) ==> e == FixedStringError::InvalidIndex && final(self).content()
                == old(self).content() && final(self).storage() == old(self).storage(),
            r matches Ok(v) ==> *v == old(self).storage()[index as int] && final(self).storage()
                == old(self).storage().update(index as int, *final(v)) && final(self).content()
                == final(self).storage().take(old(self).content().len() as int) && final(self).cap()
                == old(self).cap(),
    ;
}

} // verus!
