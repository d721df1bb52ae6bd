use vstd::prelude::*;
use vstd::slice::slice_subrange;
use vstd::string::StringSliceAdditionalSpecFns;
use vstd::utf8::{decode_utf8, encode_utf8_decode_utf8, valid_utf8};
use crate::capability::{spliced, unit_of, zeros, FixedStringRef};
use crate::error::FixedStringError;

verus! {

/// Relies on `core::str::from_utf8`: it accepts exactly the valid UTF-8
/// sequences, and the text it returns is made of the given bytes.
#[verifier::external_body]
fn str_from_units(units: &[u8]) -> (r: Option<&str>)
    ensures
        r is Some <==> valid_utf8(units@),
        r matches Some(s) ==> s.spec_bytes() == units@,
{
    core::str::from_utf8(units).ok()
}

/// A mutable reference to one unit of an array.
fn unit_at_mut<const N: usize>(units: &mut [u8; N], index: usize) -> (r: &mut u8)
    requires
        index < N,
    ensures
        *r == old(units)@[index as int],
        final(units)@ == old(units)@.update(index as int, *final(r)),
    no_unwind
{
    &mut units[index]
}

/// A string of at most `N` byte-sized units, stored inline.
#[derive(Copy, Eq)]
pub struct FixedString<const N: usize> {
    buffer: [u8; N],
    length: usize,
}

impl<const N: usize> FixedString<N> {
    #[verifier::type_invariant]
    closed spec fn inv(&self) -> bool {
        self.length <= N
    }

    /// Writes `units` after the content. The caller has checked that they fit.
    fn append_units(&mut self, units: &[u8])
        requires
            old(self).content().len() + units@.len() <= N,
        ensures
            final(self).content() == old(self).content() + units@,
            final(self).storage() == spliced(
                old(self).storage(),
                old(self).content().len() as int,
                units@,
            ),
    {
        proof {
            use_type_invariant(&*self);
        }
        let start = self.length;
        let n = units.len();
        let mut i: usize = 0;
        while i < n
            invariant
                start == old(self).length,
                start == self.length,
                start + n <= N,
                n == units@.len(),
                i <= n,
                self.buffer@.len() == N,
                forall|j: int| 0 <= j < start ==> self.buffer@[j] == old(self).buffer@[j],
                forall|j: int| start + i <= j < N ==> self.buffer@[j] == old(self).buffer@[j],
                forall|j: int| 0 <= j < i ==> self.buffer@[start + j] == units@[j],
            decreases n - i,
        {
            self.buffer[start + i] = units[i];
            i = i + 1;
        }
        self.length = start + n;
        assert(self.content() =~= old(self).content() + units@);
        assert(self.storage() =~= spliced(old(self).storage(), start as int, units@));
    }
}

impl<const N: usize> FixedStringRef for FixedString<N> {
    closed spec fn content(&self) -> Seq<u8> {
        self.buffer@.take(self.length as int)
    }

    closed spec fn storage(&self) -> Seq<u8> {
        self.buffer@
    }

    open spec fn cap(&self) -> nat {
        N as nat
    }

    fn as_str<'a>(&'a self) -> (r: Option<&'a str>) {
        proof {
            use_type_invariant(self);
        }
        let r = str_from_units(slice_subrange(self.buffer.as_slice(), 0, self.length));
        proof {
            if let Some(s) = r {
                assert(s.spec_bytes() == self.content());
                encode_utf8_decode_utf8(s@);
            }
        }
        r
    }

    fn is_full(&self) -> (r: bool) {
        proof {
            use_type_invariant(self);
        }
        self.length == N
    }

    fn length(&self) -> (r: usize) {
        proof {
            use_type_invariant(self);
        }
        self.length
    }

    fn capacity(&self) -> (r: usize) {
        N
    }

    fn clear(&mut self) {
        FixedString::clear(self)
    }

    fn assign(&mut self, string: &str) -> (r: Result<(), FixedStringError>) {
        proof {
            use_type_invariant(&*self);
        }
        if self.length != 0 {
            return Err(FixedStringError::AlreadyAssigned);
        }
        self.push(string)
    }

    fn push(&mut self, string: &str) -> (r: Result<(), FixedStringError>) {
        proof {
            use_type_invariant(&*self);
        }
        let units = string.as_bytes();
        if units.len() > N - self.length {
            return Err(FixedStringError::Overflow);
        }
        self.append_units(units);
        Ok(())
    }

    fn push_char(&mut self, character: char) -> (r: Result<(), FixedStringError>) {
        proof {
            use_type_invariant(&*self);
        }
        if self.length >= N {
            return Err(FixedStringError::Overflow);
        }
        let old_content = Ghost(self.content());
        self.buffer[self.length] = (character as u32 % 256) as u8;
        self.length = self.length + 1;
        assert(self.content() =~= old_content@.push(unit_of(character)));
        Ok(())
    }

    fn get<'a>(&'a self, index: usize) -> (r: Result<&'a u8, FixedStringError>) {
        proof {
            use_type_invariant(self);
        }
        if index >= N {
            return Err(FixedStringError::InvalidIndex);
        }
        Ok(&self.buffer[index])
    }

    fn get_mut<'a>(&'a mut self, index: usize) -> (r: Result<&'a mut u8, FixedStringError>) {
        proof {
            use_type_invariant(&*self);
        }
        if index >= N {
            return Err(FixedStringError::InvalidIndex);
        }
        Ok(unit_at_mut(&mut self.buffer, index))
    }
}

impl<const N: usize> FixedString<N> {
    /// An empty string with every unit zero.
    pub fn new() -> (r: Self)
        ensures
            r.content() == Seq::<u8>::empty(),
            r.storage() == zeros(N as nat),
    {
        let r = FixedString { buffer: [0u8; N], length: 0 };
        assert(r.storage() =~= zeros(N as nat));
        assert(r.content() =~= Seq::<u8>::empty());
        r
    }

    /// Empties the string and zeroes every storage unit.
    pub fn clear(&mut self)
        ensures
            final(self).content() == Seq::<u8>::empty(),
            final(self).storage() == zeros(N as nat),
    {
        proof {
            use_type_invariant(&*self);
        }
        let mut i: usize = 0;
        while i < N
            invariant
                i <= N,
                self.length <= N,
                forall|j: int| 0 <= j < i ==> self.buffer@[j] == 0u8,
            decreases N - i,
        {
            self.buffer[i] = 0;
            i = i + 1;
        }
        self.length = 0;
        assert(self.storage() =~= zeros(N as nat));
        assert(self.content() =~= Seq::<u8>::empty());
    }
}

/// The UTF-8 units of a sequence of text fragments, written one after another.
pub open spec fn rendered(fragments: Seq<&str>) -> Seq<u8>
    decreases fragments.len(),
{
    if fragments.len() == 0 {
        Seq::<u8>::empty()
    } else {
        rendered(fragments.drop_last()) + fragments.last().spec_bytes()
    }
}

/// The rendering of a prefix is never longer than the rendering of the whole.
proof fn lemma_rendered_prefix_len(fragments: Seq<&str>, k: int)
    requires
        0 <= k <= fragments.len(),
    ensures
        rendered(fragments.take(k)).len() <= rendered(fragments).len(),
    decreases fragments.len(),
{
    if k < fragments.len() {
        lemma_rendered_prefix_len(fragments.drop_last(), k);
        assert(fragments.drop_last().take(k) =~= fragments.take(k));
    } else {
        assert(fragments.take(k) =~= fragments);
    }
}

/// Whether `k` is where the content of `units` ends: the first zero unit, or
/// the end of `units` when none is zero.
pub open spec fn is_terminator_index(units: Seq<u8>, k: int) -> bool {
    &&& 0 <= k <= units.len()
    &&& forall|i: int| 0 <= i < k ==> units[i] != 0u8
    &&& k < units.len() ==> units[k] == 0u8
}

impl<const N: usize> FixedString<N> {
    /// A string whose content is `string`.
    pub fn new_with(string: &str) -> (r: Result<Self, FixedStringError>)
        ensures
            r is Ok <==> string.spec_bytes().len() <= N,
            r matches Err(e) ==> e == FixedStringError::Overflow,
            r matches Ok(f) ==> f.content() == string.spec_bytes(),
            r matches Ok(f) ==> f.storage() == f.content() + zeros(
                (N - f.content().len()) as nat,
            ),
    {
        let mut res = Self::new();
        match res.assign(string) {
            Ok(()) => {
                assert(res.storage() =~= res.content() + zeros((N - res.content().len()) as nat));
                Ok(res)
            },
            Err(err) => Err(err),
        }
    }

    /// Every storage unit, including those past the content.
    pub fn raw(&self) -> (r: &[u8; N])
        ensures
            r@ == self.storage(),
            self.content() == r@.take(self.content().len() as int),
            self.content().len() <= N,
    {
        proof {
            use_type_invariant(self);
            assert(self.content() =~= self.buffer@.take(self.content().len() as int));
        }
        &self.buffer
    }

    /// A string holding the given fragments one after another; refused as a
    /// whole as soon as they stop fitting.
    pub fn format(fragments: &[&str]) -> (r: Result<Self, FixedStringError>)
        ensures
            r is Ok <==> rendered(fragments@).len() <= N,
            r matches Err(e) ==> e == FixedStringError::FormatError,
            r matches Ok(f) ==> f.content() == rendered(fragments@),
    {
        let mut res = Self::new();
        let mut k: usize = 0;
        while k < fragments.len()
            invariant
                k <= fragments@.len(),
                res.content() == rendered(fragments@.take(k as int)),
            decreases fragments@.len() - k,
        {
            proof {
                assert(fragments@.take(k + 1).drop_last() =~= fragments@.take(k as int));
            }
            match res.write_str(fragments[k]) {
                Ok(()) => {},
                Err(_) => {
                    proof {
                        lemma_rendered_prefix_len(fragments@, k + 1);
                    }
                    return Err(FixedStringError::FormatError);
                },
            }
            k = k + 1;
        }
        assert(fragments@.take(k as int) =~= fragments@);
        proof {
            use_type_invariant(&res);
        }
        Ok(res)
    }

    /// A string whose content is `raw` up to its first zero unit, or all of
    /// `raw` when none is zero; the units after the content are zero.
    pub fn from_raw(raw: &[u8; N]) -> (r: Result<Self, FixedStringError>)
        ensures
            r matches Ok(f) && is_terminator_index(raw@, f.content().len() as int)
                && f.content() == raw@.take(f.content().len() as int) && f.storage() == f.content()
                + zeros((N - f.content().len()) as nat),
    {
        let mut res = Self::new();
        proof {
            use_type_invariant(&res);
            assert(res.buffer@.len() == N);
            assert(res.content().len() == res.length);
            assert(res.buffer@ =~= raw@.take(0) + zeros(N as nat));
        }
        let mut i: usize = 0;
        while i < N && raw[i] != 0
            invariant
                i <= N,
                res.length == 0,
                forall|j: int| 0 <= j < i ==> raw@[j] != 0u8,
                res.buffer@ == raw@.take(i as int) + zeros((N - i) as nat),
            decreases N - i,
        {
            res.buffer[i] = raw[i];
            i = i + 1;
            assert(res.buffer@ =~= raw@.take(i as int) + zeros((N - i) as nat));
        }
        res.length = i;
        assert(res.content() =~= raw@.take(i as int));
        Ok(res)
    }

    /// Appends the UTF-8 units of `string`, as a formatting sink.
    pub fn write_str(&mut self, string: &str) -> (r: Result<(), FixedStringError>)
        ensures
            r is Ok <==> old(self).content().len() + string.spec_bytes().len() <= N,
            r is Err ==> r == Err::<(), _>(FixedStringError::FormatError) && final(self).content()
                == old(self).content() && final(self).storage() == old(self).storage(),
            r is Ok ==> final(self).content() == old(self).content() + string.spec_bytes(),
            r is Ok ==> final(self).storage() == spliced(
                old(self).storage(),
                old(self).content().len() as int,
                string.spec_bytes(),
            ),
    {
        proof {
            use_type_invariant(&*self);
        }
        let units = string.as_bytes();
        if units.len() > N - self.length {
            return Err(FixedStringError::FormatError);
        }
        self.append_units(units);
        Ok(())
    }

    /// Appends one unit, the low eight bits of `character`, as a formatting
    /// sink.
    pub fn write_char(&mut self, character: char) -> (r: Result<(), FixedStringError>)
        ensures
            r is Ok <==> old(self).content().len() < N,
            r is Err ==> r == Err::<(), _>(FixedStringError::FormatError) && final(self).content()
                == old(self).content() && final(self).storage() == old(self).storage(),
            r is Ok ==> final(self).content() == old(self).content().push(unit_of(character)),
            r is Ok ==> final(self).storage() == old(self).storage().update(
                old(self).content().len() as int,
                unit_of(character),
            ),
    {
        match self.push_char(character) {
            Ok(()) => Ok(()),
            Err(_) => Err(FixedStringError::FormatError),
        }
    }

    /// Appends the content of `other`, whatever its capacity.
    ///
    /// This stands beside the shared operations rather than among them: Verus
    /// refuses a trait method bounded by its own trait.
    pub fn concatinate<O: FixedStringRef + ?Sized>(&mut self, other: &O) -> (r: Result<
        (),
        FixedStringError,
    >)
        ensures
            r is Ok <==> old(self).content().len() + other.content().len() <= N,
            r is Err ==> r == Err::<(), _>(FixedStringError::Overflow) && final(self).content()
                == old(self).content() && final(self).storage() == old(self).storage(),
            r is Ok ==> final(self).content() == old(self).content() + other.content(),
            r is Ok ==> final(self).storage() == spliced(
                old(self).storage(),
                old(self).content().len() as int,
                other.content(),
            ),
    {
        proof {
            use_type_invariant(&*self);
        }
        let n = other.length();
        if n > N - self.length {
            return Err(FixedStringError::Overflow);
        }
        let start = self.length;
        let mut i: usize = 0;
        while i < n
            invariant
                start == old(self).length,
                start == self.length,
                start + n <= N,
                n == other.content().len(),
                n <= other.cap(),
                i <= n,
                self.buffer@.len() == N,
                forall|j: int| 0 <= j < start ==> self.buffer@[j] == old(self).buffer@[j],
                forall|j: int| start + i <= j < N ==> self.buffer@[j] == old(self).buffer@[j],
                forall|j: int| 0 <= j < i ==> self.buffer@[start + j] == other.content()[j],
            decreases n - i,
        {
            match other.get(i) {
                Ok(unit) => {
                    self.buffer[start + i] = *unit;
                },
                Err(e) => {
                    return Err(e);
                },
            }
            i = i + 1;
        }
        self.length = start + n;
        assert(self.content() =~= old(self).content() + other.content());
        assert(self.storage() =~= spliced(old(self).storage(), start as int, other.content()));
        Ok(())
    }
}

/// The characters that the units of `units` stand for, one per unit.
pub open spec fn unit_chars(units: Seq<u8>) -> Seq<char> {
    units.map_values(|u: u8| u as char)
}

impl<const N: usize> FixedString<N> {
    /// Replaces the whole state by a copy of `source`'s content, with every
    /// unit after it zero.
    pub fn clone_from(&mut self, source: &Self)
        ensures
            final(self).content() == source.content(),
            final(self).storage() == source.content() + zeros((N - source.content().len()) as nat),
    {
        proof {
            use_type_invariant(source);
        }
        self.clear();
        proof {
            use_type_invariant(&*self);
            assert(self.content().len() == self.length);
            assert(self.buffer@ =~= source.buffer@.take(0) + zeros(N as nat));
        }
        let n = source.length;
        let mut i: usize = 0;
        while i < n
            invariant
                n == source.length,
                n <= N,
                i <= n,
                self.length == 0,
                self.buffer@ == source.buffer@.take(i as int) + zeros((N - i) as nat),
            decreases n - i,
        {
            self.buffer[i] = source.buffer[i];
            i = i + 1;
            assert(self.buffer@ =~= source.buffer@.take(i as int) + zeros((N - i) as nat));
        }
        self.length = n;
        assert(self.content() =~= source.content());
    }

    /// Moves the content into a new string and leaves this one empty with every
    /// unit zero.
    pub fn take(&mut self) -> (r: Self)
        ensures
            r.content() == old(self).content(),
            r.storage() == old(self).content() + zeros((N - old(self).content().len()) as nat),
            final(self).content() == Seq::<u8>::empty(),
            final(self).storage() == zeros(N as nat),
    {
        let mut res = Self::new();
        res.clone_from(self);
        self.clear();
        res
    }

    /// A walk over the characters of the content, from the first.
    pub fn iter(&self) -> (r: FixedStringIterator<'_, N>)
        ensures
            r.remaining() == unit_chars(self.content()),
    {
        let r = FixedStringIterator { content: self, position: 0 };
        assert(r.remaining() =~= unit_chars(self.content()));
        r
    }

    /// The content unit at `index`; `index` lies within the content.
    pub fn index(&self, index: usize) -> (r: &u8)
        requires
            index < self.content().len(),
        ensures
            *r == self.content()[index as int],
    {
        proof {
            use_type_invariant(self);
        }
        &self.buffer[index]
    }

    /// The content unit at `index`, for writing; `index` lies within the
    /// content.
    pub fn index_mut(&mut self, index: usize) -> (r: &mut u8)
        requires
            index < old(self).content().len(),
        ensures
            *r == old(self).content()[index as int],
            final(self).content() == old(self).content().update(index as int, *final(r)),
            final(self).storage() == old(self).storage().update(index as int, *final(r)),
    {
        proof {
            use_type_invariant(&*self);
        }
        let r = unit_at_mut(&mut self.buffer, index);
        r
    }

    /// The string seen through the operations shared by every capacity.
    /// Verus takes no contract on a function that returns a trait object, so
    /// none is stated here: the result is this string itself.
    pub fn get_ref(&self) -> &dyn FixedStringRef {
        self
    }

    /// The string, for writing through the operations shared by every
    /// capacity.
    pub fn get_ref_mut(&mut self) -> (r: &mut Self)
        ensures
            *r == *old(self),
            *final(self) == *final(r),
    {
        self
    }
}

/// A walk over the characters of a fixed string's content.
pub struct FixedStringIterator<'a, const N: usize> {
    content: &'a FixedString<N>,
    position: usize,
}

impl<'a, const N: usize> FixedStringIterator<'a, N> {
    #[verifier::type_invariant]
    closed spec fn inv(&self) -> bool {
        self.position <= self.content.length
    }

    /// The characters not yet produced.
    pub closed spec fn remaining(&self) -> Seq<char> {
        unit_chars(self.content.content().skip(self.position as int))
    }

    /// The next character, or `None` once the content is exhausted.
    pub fn next(&mut self) -> (r: Option<char>)
        ensures
            old(self).remaining().len() == 0 ==> r is None
                && final(self).remaining() == old(self).remaining(),
            old(self).remaining().len() > 0 ==> r == Some(old(self).remaining()[0])
                && final(self).remaining() == old(self).remaining().drop_first(),
    {
        proof {
            use_type_invariant(&*self);
            use_type_invariant(self.content);
        }
        if self.position >= self.content.length {
            return None;
        }
        let unit = self.content.buffer[self.position] as char;
        self.position = self.position + 1;
        assert(self.remaining() =~= old(self).remaining().drop_first());
        Some(unit)
    }
}

impl<const N: usize> Clone for FixedString<N> {
    /// A copy of the content, with every unit after it zero.
    fn clone(&self) -> (r: Self)
        ensures
            r.content() == self.content(),
            r.storage() == self.content() + zeros((N - self.content().len()) as nat),
    {
        let mut dest = Self::new();
        dest.clone_from(self);
        dest
    }
}

impl<const N: usize> Default for FixedString<N> {
    fn default() -> (r: Self)
        ensures
            r.content() == Seq::<u8>::empty(),
            r.storage() == zeros(N as nat),
    {
        Self::new()
    }
}

impl<const N: usize> PartialEq for FixedString<N> {
    /// Equal when the contents are equal; unused units are not compared.
    fn eq(&self, other: &Self) -> (r: bool) {
        proof {
            use_type_invariant(self);
            use_type_invariant(other);
        }
        if self.length != other.length {
            assert(self.content().len() != other.content().len());
            return false;
        }
        let mut i: usize = 0;
        while i < self.length
            invariant
                self.length == other.length,
                self.length <= N,
                other.length <= N,
                i <= self.length,
                forall|j: int| 0 <= j < i ==> self.buffer@[j] == other.buffer@[j],
            decreases self.length - i,
        {
            if self.buffer[i] != other.buffer[i] {
                assert(self.content()[i as int] != other.content()[i as int]);
                return false;
            }
            i = i + 1;
        }
        assert(self.content() =~= other.content());
        true
    }
}

impl<const N: usize> vstd::std_specs::cmp::PartialEqSpecImpl for FixedString<N> {
    open spec fn obeys_eq_spec() -> bool {
        true
    }

    open spec fn eq_spec(&self, other: &Self) -> bool {
        self.content() == other.content()
    }
}

} // verus!
