//! The audits that are loaded.
use crate::domain::audit::{is_new_audit, new_audit_data, AuditData, PathSet};
use crate::ordered::{has_key, index_of, MapKey, OrderedMap};
use crate::text::{text_before, texts};
use vstd::prelude::*;
use vstd::string::*;

verus! {

/// Audits by identifier.
pub struct DataContext {
    pub audits: OrderedMap<String, AuditData>,
}

pub fn new_data_context() -> (r: DataContext)
    ensures
        r.audits@ == Map::<Seq<char>, AuditData>::empty(),
{
    DataContext { audits: OrderedMap::new() }
}

impl DataContext {
    /// Creates an audit and says whether it did: an audit that is there already
    /// stays as it is.
    pub fn create_audit(
        &mut self,
        audit_id: String,
        audit_name: String,
        in_scope_files: PathSet,
        security_notes: Option<String>,
    ) -> (r: bool)
        ensures
            r == !old(self).audits@.dom().contains(audit_id@),
            !r ==> final(self).audits@ == old(self).audits@,
            r ==> final(self).audits@ == old(self).audits@.insert(
                audit_id@,
                final(self).audits@[audit_id@],
            ),
            r ==> is_new_audit(
                final(self).audits@[audit_id@],
                audit_name,
                in_scope_files,
                security_notes,
            ),
    {
        if self.audits.contains_key(&audit_id) {
            return false;
        }
        self.audits.insert(audit_id, new_audit_data(audit_name, in_scope_files, security_notes));
        true
    }

    /// The data of an audit.
    pub fn get_audit(&self, audit_id: &str) -> (r: Option<&AuditData>)
        ensures
            r is Some == self.audits@.dom().contains(audit_id@),
            r is Some ==> *r->0 == self.audits@[audit_id@],
    {
        self.audits.get(&audit_id.to_owned())
    }

    /// The data of an audit, for change.
    pub fn get_audit_mut(&mut self, audit_id: &str) -> (r: Option<&mut AuditData>)
        ensures
            r is Some == old(self).audits@.dom().contains(audit_id@),
            r is None ==> final(self).audits@ == old(self).audits@,
            r is Some ==> *r->0 == old(self).audits@[audit_id@],
            r is Some ==> final(self).audits@ == old(self).audits@.insert(
                audit_id@,
                *final(r->0),
            ),
    {
        self.audits.get_mut(&audit_id.to_owned())
    }

    /// Takes an audit out and says whether it was there.
    pub fn delete_audit(&mut self, audit_id: &str) -> (r: bool)
        ensures
            r == old(self).audits@.dom().contains(audit_id@),
            final(self).audits@ == old(self).audits@.remove(audit_id@),
    {
        self.audits.remove(&audit_id.to_owned()).is_some()
    }

    /// The identifiers of all audits, in ascending order.
    pub fn list_audits(&self) -> (r: Vec<String>)
        ensures
            forall|id: Seq<char>| #[trigger]
                texts(r@).contains(id) <==> self.audits@.dom().contains(id),
            forall|i: int, j: int|
                0 <= i < j < r@.len() ==> text_before((#[trigger] r@[i])@, (#[trigger] r@[j])@),
    {
        let n: usize = self.audits.len();
        let ghost pairs = self.audits.pairs();
        let mut r: Vec<String> = Vec::new();
        for i in 0..n
            invariant
                n == pairs.len(),
                pairs == self.audits.pairs(),
                r@.len() == i,
                forall|j: int| 0 <= j < i ==> (#[trigger] r@[j])@ == pairs[j].0@,
        {
            r.push(self.audits.key_at(i).clone());
        }
        proof {
            assert forall|id: Seq<char>| #[trigger]
                texts(r@).contains(id) <==> self.audits@.dom().contains(id) by {
                if texts(r@).contains(id) {
                    let i = choose|i: int| 0 <= i < texts(r@).len() && texts(r@)[i] == id;
                    assert(r@[i]@ == pairs[i].0@);
                    assert(has_key(pairs, id));
                }
                if self.audits@.dom().contains(id) {
                    assert(has_key(pairs, id));
                    let i = index_of(pairs, id);
                    assert(r@[i]@ == id);
                    assert(texts(r@)[i] == id);
                }
            }
            assert forall|i: int, j: int| 0 <= i < j < r@.len() implies text_before(
                (#[trigger] r@[i])@,
                (#[trigger] r@[j])@,
            ) by {
                assert(<String as MapKey>::before(pairs[i].0@, pairs[j].0@));
            }
        }
        r
    }
}

} // verus!
