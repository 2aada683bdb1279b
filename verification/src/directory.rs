//! The identity directory: the fixed set of registered identities and the
//! lookup that login performs.

use vstd::prelude::*;
use crate::role::Role;

verus! {

/// A registered identity: a stable subject id, a display handle, the
/// credential pair presented at login, and a role.
pub struct User {
    pub subject_id: Vec<u8>,
    pub display_handle: Vec<u8>,
    pub external_identity: Vec<u8>,
    pub partition_id: Vec<u8>,
    pub role: Role,
}

/// Mathematical image of an identity.
pub ghost struct SpecUser {
    pub subject_id: Seq<u8>,
    pub display_handle: Seq<u8>,
    pub external_identity: Seq<u8>,
    pub partition_id: Seq<u8>,
    pub role: Role,
}

impl View for User {
    type V = SpecUser;

    open spec fn view(&self) -> SpecUser {
        SpecUser {
            subject_id: self.subject_id@,
            display_handle: self.display_handle@,
            external_identity: self.external_identity@,
            partition_id: self.partition_id@,
            role: self.role,
        }
    }
}

/// The read-only directory, constructed once at startup.
pub struct Directory {
    pub entries: Vec<User>,
}

impl View for Directory {
    type V = Seq<SpecUser>;

    open spec fn view(&self) -> Seq<SpecUser> {
        self.entries@.map(|i: int, u: User| u@)
    }
}

impl Directory {
    /// Directory invariant: subject ids are unique, and so are the
    /// credential pairs that lookup matches on.
    pub open spec fn wf(&self) -> bool {
        &&& forall|p: int, q: int|
            0 <= p < q < self@.len() ==> self@[p].subject_id != self@[q].subject_id
        &&& forall|p: int, q: int|
            0 <= p < q < self@.len() ==> !(self@[p].external_identity == self@[q].external_identity
                && self@[p].partition_id == self@[q].partition_id)
    }
}

/// The index of the first identity matching both credential fields exactly,
/// if any matches.
pub open spec fn spec_lookup(d: Seq<SpecUser>, ext: Seq<u8>, part: Seq<u8>) -> Option<int>
    decreases d.len(),
{
    if d.len() == 0 {
        None
    } else if d[0].external_identity == ext && d[0].partition_id == part {
        Some(0)
    } else {
        match spec_lookup(d.skip(1), ext, part) {
            Some(i) => Some(i + 1),
            None => None,
        }
    }
}

/// What `spec_lookup` returns: the least matching index, or nothing when no
/// identity matches both fields.
pub proof fn lemma_lookup_spec(d: Seq<SpecUser>, ext: Seq<u8>, part: Seq<u8>)
    ensures
        match spec_lookup(d, ext, part) {
            Some(i) => 0 <= i < d.len() && d[i].external_identity == ext && d[i].partition_id
                == part && (forall|k: int|
                0 <= k < i ==> !(d[k].external_identity == ext && d[k].partition_id == part)),
            None => forall|k: int|
                0 <= k < d.len() ==> !(d[k].external_identity == ext && d[k].partition_id == part),
        },
    decreases d.len(),
{
    if d.len() > 0 && !(d[0].external_identity == ext && d[0].partition_id == part) {
        let t = d.skip(1);
        lemma_lookup_spec(t, ext, part);
        assert(forall|k: int| 0 <= k < t.len() ==> t[k] == d[k + 1]);
        match spec_lookup(t, ext, part) {
            Some(i) => {
                assert(spec_lookup(d, ext, part) == Some(i + 1));
                assert forall|k: int| 0 <= k < i + 1 implies !(d[k].external_identity == ext
                    && d[k].partition_id == part) by {
                    if k > 0 {
                        assert(d[k] == t[k - 1]);
                    }
                }
            },
            None => {
                assert forall|k: int| 0 <= k < d.len() implies !(d[k].external_identity == ext
                    && d[k].partition_id == part) by {
                    if k > 0 {
                        assert(d[k] == t[k - 1]);
                    }
                }
            },
        }
    }
}

impl Directory {
    /// Finds the identity presented by a credential pair: deterministic,
    /// case-sensitive equality on both fields; absence is no error.
    pub fn lookup(&self, ext: &Vec<u8>, part: &Vec<u8>) -> (out: Option<usize>)
        ensures
            match out {
                Some(k) => spec_lookup(self@, ext@, part@) == Some(k as int) && k < self@.len(),
                None => spec_lookup(self@, ext@, part@) is None,
            },
    {
        proof {
            lemma_lookup_spec(self@, ext@, part@);
        }
        let mut i: usize = 0;
        while i < self.entries.len()
            invariant
                i <= self@.len(),
                self@.len() == self.entries@.len(),
                forall|k: int|
                    0 <= k < i ==> !(self@[k].external_identity == ext@ && self@[k].partition_id
                        == part@),
            decreases self@.len() - i,
        {
            let u = &self.entries[i];
            if crate::bytes::bytes_eq(&u.external_identity, ext) && crate::bytes::bytes_eq(
                &u.partition_id,
                part,
            ) {
                proof {
                    lemma_lookup_spec(self@, ext@, part@);
                    assert(self@[i as int].external_identity == ext@ && self@[i as int].partition_id
                        == part@);
                    match spec_lookup(self@, ext@, part@) {
                        Some(m) => {
                            if m < i as int {
                                assert(!(self@[m].external_identity == ext@
                                    && self@[m].partition_id == part@));
                            } else if m > i as int {
                                assert(!(self@[i as int].external_identity == ext@
                                    && self@[i as int].partition_id == part@));
                            }
                        },
                        None => {
                            assert(!(self@[i as int].external_identity == ext@
                                && self@[i as int].partition_id == part@));
                        },
                    }
                }
                return Some(i);
            }
            i += 1;
        }
        proof {
            lemma_lookup_spec(self@, ext@, part@);
            match spec_lookup(self@, ext@, part@) {
                Some(m) => {
                    assert(!(self@[m].external_identity == ext@ && self@[m].partition_id
                        == part@));
                },
                None => {},
            }
        }
        None
    }
}

/// The bytes of `1`.
pub open spec fn spec_subject_first() -> Seq<u8> {
    seq![49u8]
}

pub fn subject_first() -> (out: Vec<u8>)
    ensures
        out@ == spec_subject_first(),
{
    let mut v: Vec<u8> = Vec::new();
    v.push(49u8);
    proof {
        assert(v@ =~= spec_subject_first());
    }
    v
}

/// The bytes of `2`.
pub open spec fn spec_subject_second() -> Seq<u8> {
    seq![50u8]
}

pub fn subject_second() -> (out: Vec<u8>)
    ensures
        out@ == spec_subject_second(),
{
    let mut v: Vec<u8> = Vec::new();
    v.push(50u8);
    proof {
        assert(v@ =~= spec_subject_second());
    }
    v
}

/// The bytes of `Hashmap for services mapping`.
pub open spec fn spec_display_handle() -> Seq<u8> {
    seq![72u8, 97u8, 115u8, 104u8, 109u8, 97u8, 112u8, 32u8, 102u8, 111u8, 114u8, 32u8, 115u8, 101u8, 114u8, 118u8, 105u8, 99u8, 101u8, 115u8, 32u8, 109u8, 97u8, 112u8, 112u8, 105u8, 110u8, 103u8]
}

pub fn display_handle() -> (out: Vec<u8>)
    ensures
        out@ == spec_display_handle(),
{
    let mut v: Vec<u8> = Vec::new();
    v.push(72u8);
    v.push(97u8);
    v.push(115u8);
    v.push(104u8);
    v.push(109u8);
    v.push(97u8);
    v.push(112u8);
    v.push(32u8);
    v.push(102u8);
    v.push(111u8);
    v.push(114u8);
    v.push(32u8);
    v.push(115u8);
    v.push(101u8);
    v.push(114u8);
    v.push(118u8);
    v.push(105u8);
    v.push(99u8);
    v.push(101u8);
    v.push(115u8);
    v.push(32u8);
    v.push(109u8);
    v.push(97u8);
    v.push(112u8);
    v.push(112u8);
    v.push(105u8);
    v.push(110u8);
    v.push(103u8);
    proof {
        assert(v@ =~= spec_display_handle());
    }
    v
}

/// The bytes of `nobody@localhost`.
pub open spec fn spec_identity_first() -> Seq<u8> {
    seq![110u8, 111u8, 98u8, 111u8, 100u8, 121u8, 64u8, 108u8, 111u8, 99u8, 97u8, 108u8, 104u8, 111u8, 115u8, 116u8]
}

pub fn identity_first() -> (out: Vec<u8>)
    ensures
        out@ == spec_identity_first(),
{
    let mut v: Vec<u8> = Vec::new();
    v.push(110u8);
    v.push(111u8);
    v.push(98u8);
    v.push(111u8);
    v.push(100u8);
    v.push(121u8);
    v.push(64u8);
    v.push(108u8);
    v.push(111u8);
    v.push(99u8);
    v.push(97u8);
    v.push(108u8);
    v.push(104u8);
    v.push(111u8);
    v.push(115u8);
    v.push(116u8);
    proof {
        assert(v@ =~= spec_identity_first());
    }
    v
}

/// The bytes of `root@localhost`.
pub open spec fn spec_identity_second() -> Seq<u8> {
    seq![114u8, 111u8, 111u8, 116u8, 64u8, 108u8, 111u8, 99u8, 97u8, 108u8, 104u8, 111u8, 115u8, 116u8]
}

pub fn identity_second() -> (out: Vec<u8>)
    ensures
        out@ == spec_identity_second(),
{
    let mut v: Vec<u8> = Vec::new();
    v.push(114u8);
    v.push(111u8);
    v.push(111u8);
    v.push(116u8);
    v.push(64u8);
    v.push(108u8);
    v.push(111u8);
    v.push(99u8);
    v.push(97u8);
    v.push(108u8);
    v.push(104u8);
    v.push(111u8);
    v.push(115u8);
    v.push(116u8);
    proof {
        assert(v@ =~= spec_identity_second());
    }
    v
}

/// The bytes of `5aae5619a4b33765800bc5f9bdd1be507fb`.
pub open spec fn spec_partition_first() -> Seq<u8> {
    seq![53u8, 97u8, 97u8, 101u8, 53u8, 54u8, 49u8, 57u8, 97u8, 52u8, 98u8, 51u8, 51u8, 55u8, 54u8, 53u8, 56u8, 48u8, 48u8, 98u8, 99u8, 53u8, 102u8, 57u8, 98u8, 100u8, 100u8, 49u8, 98u8, 101u8, 53u8, 48u8, 55u8, 102u8, 98u8]
}

pub fn partition_first() -> (out: Vec<u8>)
    ensures
        out@ == spec_partition_first(),
{
    let mut v: Vec<u8> = Vec::new();
    v.push(53u8);
    v.push(97u8);
    v.push(97u8);
    v.push(101u8);
    v.push(53u8);
    v.push(54u8);
    v.push(49u8);
    v.push(57u8);
    v.push(97u8);
    v.push(52u8);
    v.push(98u8);
    v.push(51u8);
    v.push(51u8);
    v.push(55u8);
    v.push(54u8);
    v.push(53u8);
    v.push(56u8);
    v.push(48u8);
    v.push(48u8);
    v.push(98u8);
    v.push(99u8);
    v.push(53u8);
    v.push(102u8);
    v.push(57u8);
    v.push(98u8);
    v.push(100u8);
    v.push(100u8);
    v.push(49u8);
    v.push(98u8);
    v.push(101u8);
    v.push(53u8);
    v.push(48u8);
    v.push(55u8);
    v.push(102u8);
    v.push(98u8);
    proof {
        assert(v@ =~= spec_partition_first());
    }
    v
}

/// The bytes of `3ec85f59dce67fc936d7f1e63466aea3b6c`.
pub open spec fn spec_partition_second() -> Seq<u8> {
    seq![51u8, 101u8, 99u8, 56u8, 53u8, 102u8, 53u8, 57u8, 100u8, 99u8, 101u8, 54u8, 55u8, 102u8, 99u8, 57u8, 51u8, 54u8, 100u8, 55u8, 102u8, 49u8, 101u8, 54u8, 51u8, 52u8, 54u8, 54u8, 97u8, 101u8, 97u8, 51u8, 98u8, 54u8, 99u8]
}

pub fn partition_second() -> (out: Vec<u8>)
    ensures
        out@ == spec_partition_second(),
{
    let mut v: Vec<u8> = Vec::new();
    v.push(51u8);
    v.push(101u8);
    v.push(99u8);
    v.push(56u8);
    v.push(53u8);
    v.push(102u8);
    v.push(53u8);
    v.push(57u8);
    v.push(100u8);
    v.push(99u8);
    v.push(101u8);
    v.push(54u8);
    v.push(55u8);
    v.push(102u8);
    v.push(99u8);
    v.push(57u8);
    v.push(51u8);
    v.push(54u8);
    v.push(100u8);
    v.push(55u8);
    v.push(102u8);
    v.push(49u8);
    v.push(101u8);
    v.push(54u8);
    v.push(51u8);
    v.push(52u8);
    v.push(54u8);
    v.push(54u8);
    v.push(97u8);
    v.push(101u8);
    v.push(97u8);
    v.push(51u8);
    v.push(98u8);
    v.push(54u8);
    v.push(99u8);
    proof {
        assert(v@ =~= spec_partition_second());
    }
    v
}

/// The built-in directory: its two fixed identities, a User and an Admin,
/// sharing a display handle.
pub fn init_users() -> (out: Directory)
    ensures
        out.wf(),
        out@.len() == 2,
        out@[0] == (SpecUser {
            subject_id: spec_subject_first(),
            display_handle: spec_display_handle(),
            external_identity: spec_identity_first(),
            partition_id: spec_partition_first(),
            role: Role::User,
        }),
        out@[1] == (SpecUser {
            subject_id: spec_subject_second(),
            display_handle: spec_display_handle(),
            external_identity: spec_identity_second(),
            partition_id: spec_partition_second(),
            role: Role::Admin,
        }),
{
    let first = User {
        subject_id: subject_first(),
        display_handle: display_handle(),
        external_identity: identity_first(),
        partition_id: partition_first(),
        role: Role::User,
    };
    let second = User {
        subject_id: subject_second(),
        display_handle: display_handle(),
        external_identity: identity_second(),
        partition_id: partition_second(),
        role: Role::Admin,
    };
    let mut entries: Vec<User> = Vec::new();
    entries.push(first);
    entries.push(second);
    let out = Directory { entries };
    proof {
        assert(out@[0].subject_id =~= spec_subject_first());
        assert(out@[0].display_handle =~= spec_display_handle());
        assert(out@[0].external_identity =~= spec_identity_first());
        assert(out@[0].partition_id =~= spec_partition_first());
        assert(out@[1].subject_id =~= spec_subject_second());
        assert(out@[1].display_handle =~= spec_display_handle());
        assert(out@[1].external_identity =~= spec_identity_second());
        assert(out@[1].partition_id =~= spec_partition_second());
        assert(spec_subject_first()[0] != spec_subject_second()[0]);
        assert(out@[0].subject_id != out@[1].subject_id);
        assert(spec_identity_first().len() != spec_identity_second().len());
        assert(!(out@[0].external_identity == out@[1].external_identity && out@[0].partition_id
            == out@[1].partition_id));
        assert forall|p: int, q: int| 0 <= p < q < out@.len() implies out@[p].subject_id
            != out@[q].subject_id by {
            assert(p == 0 && q == 1);
        }
        assert forall|p: int, q: int| 0 <= p < q < out@.len() implies !(out@[p].external_identity
            == out@[q].external_identity && out@[p].partition_id == out@[q].partition_id) by {
            assert(p == 0 && q == 1);
        }
    }
    out
}

} // verus!
