use vstd::prelude::*;
use crate::data::RawVc;

verus! {

/// The structural identity of a persistent task.
pub enum TaskFingerprint {
    Native { fn_type: u32, this: Option<RawVc>, arg: Vec<u8> },
    ResolveNative { fn_type: u32, this: Option<RawVc>, arg: Vec<u8> },
    ResolveTrait { trait_type: u32, method_name: String, this: Option<RawVc>, arg: Vec<u8> },
}

/// A fingerprint as a mathematical value.
pub ghost enum FingerprintView {
    Native(u32, Option<RawVc>, Seq<u8>),
    ResolveNative(u32, Option<RawVc>, Seq<u8>),
    ResolveTrait(u32, Seq<char>, Option<RawVc>, Seq<u8>),
}

impl View for TaskFingerprint {
    type V = FingerprintView;

    open spec fn view(&self) -> FingerprintView {
        match self {
            TaskFingerprint::Native { fn_type, this, arg } => FingerprintView::Native(
                *fn_type,
                *this,
                arg@,
            ),
            TaskFingerprint::ResolveNative { fn_type, this, arg } => FingerprintView::ResolveNative(
                *fn_type,
                *this,
                arg@,
            ),
            TaskFingerprint::ResolveTrait { trait_type, method_name, this, arg } =>
                FingerprintView::ResolveTrait(*trait_type, method_name@, *this, arg@),
        }
    }
}

pub fn bytes_equal(a: &Vec<u8>, b: &Vec<u8>) -> (r: bool)
    ensures
        r == (a@ == b@),
{
    if a.len() != b.len() {
        return false;
    }
    let mut i: usize = 0;
    while i < a.len()
        invariant
            a@.len() == b@.len(),
            i <= a@.len(),
            forall|k: int| 0 <= k < i ==> a@[k] == b@[k],
        decreases a@.len() - i,
    {
        if a[i] != b[i] {
            return false;
        }
        i = i + 1;
    }
    assert(a@ =~= b@);
    true
}

fn receiver_equal(a: &Option<RawVc>, b: &Option<RawVc>) -> (r: bool)
    ensures
        r == (*a == *b),
{
    match (a, b) {
        (None, None) => true,
        (Some(x), Some(y)) => *x == *y,
        _ => false,
    }
}

pub fn bytes_copy(a: &Vec<u8>) -> (r: Vec<u8>)
    ensures
        r@ == a@,
{
    let mut r: Vec<u8> = Vec::new();
    let mut i: usize = 0;
    while i < a.len()
        invariant
            i <= a@.len(),
            r@ == a@.subrange(0, i as int),
        decreases a@.len() - i,
    {
        r.push(a[i]);
        i = i + 1;
    }
    assert(r@ =~= a@);
    r
}

impl TaskFingerprint {
    /// Structural equality.
    pub fn same_as(&self, other: &TaskFingerprint) -> (r: bool)
        ensures
            r == (self@ == other@),
    {
        match (self, other) {
            (
                TaskFingerprint::Native { fn_type: f1, this: t1, arg: a1 },
                TaskFingerprint::Native { fn_type: f2, this: t2, arg: a2 },
            ) => *f1 == *f2 && receiver_equal(t1, t2) && bytes_equal(a1, a2),
            (
                TaskFingerprint::ResolveNative { fn_type: f1, this: t1, arg: a1 },
                TaskFingerprint::ResolveNative { fn_type: f2, this: t2, arg: a2 },
            ) => *f1 == *f2 && receiver_equal(t1, t2) && bytes_equal(a1, a2),
            (
                TaskFingerprint::ResolveTrait { trait_type: f1, method_name: m1, this: t1, arg: a1 },
                TaskFingerprint::ResolveTrait { trait_type: f2, method_name: m2, this: t2, arg: a2 },
            ) => *f1 == *f2 && *m1 == *m2 && receiver_equal(t1, t2) && bytes_equal(a1, a2),
            _ => false,
        }
    }

    /// A copy with the same structure.
    pub fn duplicate(&self) -> (r: TaskFingerprint)
        ensures
            r@ == self@,
    {
        match self {
            TaskFingerprint::Native { fn_type, this, arg } => TaskFingerprint::Native {
                fn_type: *fn_type,
                this: *this,
                arg: bytes_copy(arg),
            },
            TaskFingerprint::ResolveNative { fn_type, this, arg } => TaskFingerprint::ResolveNative {
                fn_type: *fn_type,
                this: *this,
                arg: bytes_copy(arg),
            },
            TaskFingerprint::ResolveTrait { trait_type, method_name, this, arg } =>
                TaskFingerprint::ResolveTrait {
                trait_type: *trait_type,
                method_name: method_name.clone(),
                this: *this,
                arg: bytes_copy(arg),
            },
        }
    }
}

} // verus!
