//! A readable byte stream held in memory.
//!
//! `ByteStream` plays the part of one direction of a connection whose peer
//! has sent all it is going to send: a run of bytes and a read position.
//! Its view is what is still unread.

use vstd::prelude::*;

verus! {

/// The number of leading bytes of `s` up to and including the first
/// `delim`, or the length of `s` where it holds no `delim`.
pub open spec fn through_first(s: Seq<u8>, delim: u8) -> nat
    decreases s.len(),
{
    if s.len() == 0 {
        0
    } else if s[0] == delim {
        1
    } else {
        1 + through_first(s.drop_first(), delim)
    }
}

/// What `through_first` counts: a prefix free of `delim` but for its last
/// byte, which is the first `delim` of `s` where `s` has one. Without one
/// the prefix is all of `s`.
pub proof fn lemma_through_first(s: Seq<u8>, delim: u8)
    ensures
        through_first(s, delim) <= s.len(),
        forall|i: int| 0 <= i < through_first(s, delim) - 1 ==> s[i] != delim,
        s.contains(delim) ==> through_first(s, delim) > 0 && s[through_first(s, delim) - 1]
            == delim,
        !s.contains(delim) ==> through_first(s, delim) == s.len(),
    decreases s.len(),
{
    if s.len() == 0 {
    } else if s[0] == delim {
    } else {
        let rest = s.drop_first();
        lemma_through_first(rest, delim);
        let n = through_first(rest, delim);
        assert forall|i: int| 0 <= i < n + 1 - 1 implies s[i] != delim by {
            if i > 0 {
                assert(s[i] == rest[i - 1]);
            }
        }
        if s.contains(delim) {
            let k = choose|k: int| 0 <= k < s.len() && s[k] == delim;
            assert(rest[k - 1] == delim);
            assert(rest.contains(delim));
            assert(s[n + 1 - 1] == rest[n - 1]);
        } else {
            assert forall|i: int| 0 <= i < rest.len() implies rest[i] != delim by {
                assert(s.contains(s[i + 1]));
            }
        }
    }
}

/// A prefix of `s` that is free of `delim` before its last byte, and either
/// ends in `delim` or is all of a `delim`-free `s`, is the one that
/// `through_first` counts.
pub proof fn lemma_through_first_is(s: Seq<u8>, delim: u8, n: int)
    requires
        0 <= n <= s.len(),
        forall|i: int| 0 <= i < n - 1 ==> s[i] != delim,
        (n > 0 && s[n - 1] == delim) || (n == s.len() && !s.contains(delim)),
    ensures
        through_first(s, delim) == n,
{
    lemma_through_first(s, delim);
    let m = through_first(s, delim) as int;
    if n > 0 && s[n - 1] == delim {
        assert(s.contains(delim));
        if m < n {
            assert(s[m - 1] == delim);
        }
    }
}

/// Bytes that follow the first `delim` do not move it.
pub proof fn lemma_through_first_extend(s: Seq<u8>, more: Seq<u8>, delim: u8)
    requires
        s.contains(delim),
    ensures
        through_first(s + more, delim) == through_first(s, delim),
{
    lemma_through_first(s, delim);
    let n = through_first(s, delim) as int;
    assert((s + more)[n - 1] == s[n - 1]);
    assert forall|i: int| 0 <= i < n - 1 implies (s + more)[i] != delim by {
        assert((s + more)[i] == s[i]);
    }
    lemma_through_first_is(s + more, delim, n);
}

/// A run of bytes with a read position.
#[derive(Debug)]
pub struct ByteStream {
    data: Vec<u8>,
    pos: usize,
}

impl View for ByteStream {
    type V = Seq<u8>;

    /// The bytes not yet read.
    closed spec fn view(&self) -> Seq<u8> {
        self.data@.skip(self.pos as int)
    }
}

impl ByteStream {
    #[verifier::type_invariant]
    spec fn in_bounds(self) -> bool {
        self.pos <= self.data.len()
    }

    /// A stream that will yield `data` and then end.
    pub fn new(data: Vec<u8>) -> (stream: Self)
        ensures
            stream@ == data@,
    {
        ByteStream { data, pos: 0 }
    }

    /// The number of bytes not yet read.
    pub fn remaining(&self) -> (n: usize)
        ensures
            n == self@.len(),
    {
        proof {
            use_type_invariant(self);
        }
        self.data.len() - self.pos
    }

    /// Reads exactly `n` bytes. Where fewer are left, nothing is returned
    /// and the stream is left at its end: what was there is lost to the
    /// reader, as on a connection that closed early.
    pub fn read_exact(&mut self, n: usize) -> (bytes: Option<Vec<u8>>)
        ensures
            bytes is Some <==> n <= old(self)@.len(),
            bytes matches Some(b) ==> b@ == old(self)@.take(n as int) && final(self)@ == old(
                self,
            )@.skip(n as int),
            bytes is None ==> final(self)@ == Seq::<u8>::empty(),
    {
        proof {
            use_type_invariant(&*self);
        }
        let len: usize = self.data.len();
        if n > len - self.pos {
            self.pos = len;
            assert(self@ =~= Seq::<u8>::empty());
            return None;
        }
        let end: usize = self.pos + n;
        let mut out: Vec<u8> = Vec::new();
        let mut i: usize = self.pos;
        while i < end
            invariant
                self.pos <= i <= end <= self.data.len(),
                out@ == self.data@.subrange(self.pos as int, i as int),
            decreases end - i,
        {
            out.push(self.data[i]);
            i += 1;
            assert(out@ =~= self.data@.subrange(self.pos as int, i as int));
        }
        assert(out@ =~= self@.take(n as int));
        assert(self.data@.skip(end as int) =~= self@.skip(n as int));
        self.pos = end;
        Some(out)
    }

    /// Reads up to and including the first `delim`, or to the end of the
    /// stream where no `delim` is left.
    pub fn read_until(&mut self, delim: u8) -> (bytes: Vec<u8>)
        ensures
            bytes@ == old(self)@.take(through_first(old(self)@, delim) as int),
            final(self)@ == old(self)@.skip(through_first(old(self)@, delim) as int),
    {
        proof {
            use_type_invariant(&*self);
        }
        let ghost rest = self@;
        let len: usize = self.data.len();
        let start: usize = self.pos;
        let mut out: Vec<u8> = Vec::new();
        let mut i: usize = start;
        let mut found: bool = false;
        while i < len && !found
            invariant
                start <= i <= len,
                len == self.data.len(),
                self.pos == start,
                rest == self.data@.skip(start as int),
                out@ == rest.take(i - start),
                found ==> i > start && rest[i - start - 1] == delim,
                forall|k: int| 0 <= k < i - start - (if found { 1int } else { 0int }) ==> rest[k] != delim,
            decreases len - i,
        {
            let b: u8 = self.data[i];
            assert(b == rest[i - start]);
            out.push(b);
            i += 1;
            found = b == delim;
            assert(out@ =~= rest.take(i - start));
        }
        proof {
            if !found {
                assert(i == len);
                assert(!rest.contains(delim));
            }
            lemma_through_first_is(rest, delim, i - start);
            assert(self.data@.skip(i as int) =~= rest.skip(i - start));
        }
        self.pos = i;
        out
    }

    /// Reads everything that is left.
    pub fn read_to_end(&mut self) -> (bytes: Vec<u8>)
        ensures
            bytes@ == old(self)@,
            final(self)@ == Seq::<u8>::empty(),
    {
        let n: usize = self.remaining();
        match self.read_exact(n) {
            Some(bytes) => {
                assert(bytes@ =~= old(self)@);
                assert(self@ =~= Seq::<u8>::empty());
                bytes
            },
            None => Vec::new(),
        }
    }
}

} // verus!
