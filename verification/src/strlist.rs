//! Ordered list of byte strings. Every string crossing the boundary is
//! handed out null-terminated, so the list only ever holds byte strings that
//! are free of embedded null bytes; construction fails rather than truncate.
use vstd::prelude::*;

verus! {

/// A byte string that can be null-terminated without loss.
pub open spec fn null_free(s: Seq<u8>) -> bool {
    forall|i: int| 0 <= i < s.len() ==> s[i] != 0u8
}

/// Null-freeness is preserved by concatenation.
pub proof fn lemma_null_free_concat(a: Seq<u8>, b: Seq<u8>)
    requires
        null_free(a),
        null_free(b),
    ensures
        null_free(a + b),
{
    assert forall|i: int| 0 <= i < (a + b).len() implies (a + b)[i] != 0u8 by {
        if i < a.len() {
            assert((a + b)[i] == a[i]);
        } else {
            assert((a + b)[i] == b[i - a.len()]);
        }
    }
}

/// Whether `b` holds an embedded null byte.
pub fn has_nul(b: &Vec<u8>) -> (r: bool)
    ensures
        r == !null_free(b@),
{
    let mut i: usize = 0;
    while i < b.len()
        invariant
            i <= b@.len(),
            forall|j: int| 0 <= j < i ==> b@[j] != 0u8,
        decreases b@.len() - i,
    {
        if b[i] == 0 {
            return true;
        }
        i = i + 1;
    }
    false
}

/// Insertion-ordered sequence of null-free byte strings.
pub struct StringList {
    items: Vec<Vec<u8>>,
}

impl StringList {
    /// The sequence of byte strings the list holds, in order.
    pub closed spec fn items(self) -> Seq<Seq<u8>> {
        self.items@.map_values(|v: Vec<u8>| v@)
    }

    pub closed spec fn wf(self) -> bool {
        forall|i: int| 0 <= i < self.items().len() ==> null_free(#[trigger] self.items()[i])
    }

    pub fn new() -> (l: Self)
        ensures
            l.wf(),
            l.items() == Seq::<Seq<u8>>::empty(),
    {
        StringList { items: Vec::new() }
    }

    pub fn len(&self) -> (n: usize)
        ensures
            n == self.items().len(),
    {
        self.items.len()
    }

    /// Read one entry by index; out-of-range reports absence.
    pub fn get(&self, index: usize) -> (r: Option<&Vec<u8>>)
        ensures
            match r {
                Some(s) => index < self.items().len() && s@ == self.items()[index as int],
                None => index >= self.items().len(),
            },
    {
        if index < self.items.len() {
            Some(&self.items[index])
        } else {
            None
        }
    }

    /// Append a caller-supplied byte string; fails (and leaves the list
    /// unchanged) exactly when the string holds an embedded null byte.
    pub fn push(&mut self, item: Vec<u8>) -> (ok: bool)
        requires
            old(self).wf(),
        ensures
            final(self).wf(),
            ok == null_free(item@),
            ok ==> final(self).items() == old(self).items().push(item@),
            !ok ==> final(self).items() == old(self).items(),
    {
        if has_nul(&item) {
            false
        } else {
            self.push_clean(item);
            true
        }
    }

    /// Append a byte string already known to be null-free.
    pub fn push_clean(&mut self, item: Vec<u8>)
        requires
            old(self).wf(),
            null_free(item@),
        ensures
            final(self).wf(),
            final(self).items() == old(self).items().push(item@),
    {
        self.items.push(item);
        proof {
            assert(self.items() =~= old(self).items().push(item@));
        }
    }
}

} // verus!
