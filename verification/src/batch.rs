use vstd::prelude::*;

use crate::schema::{NfCmd, NfListObject, NfObject, Nftables};

verus! {

/// Batch manages nftables objects and is used to prepare an nftables
/// payload: an append-only ordered buffer of document items.  No
/// operation is a no-op and none deduplicates; finalization consumes
/// the batch, so a finished document cannot be appended to.
#[derive(Debug)]
pub struct Batch {
    data: Vec<NfObject>,
}

impl Batch {
    /// The items collected so far, in insertion order.
    pub closed spec fn items(&self) -> Seq<NfObject> {
        self.data@
    }

    /// Creates an empty Batch instance.
    pub fn new() -> (r: Batch)
        ensures
            r.items() == Seq::<NfObject>::empty(),
    {
        Batch { data: Vec::new() }
    }

    /// Adds an object with the `add` command to the batch.
    pub fn add(&mut self, obj: NfListObject)
        ensures
            final(self).items() == old(self).items().push(
                NfObject::CmdObject(NfCmd::Add(obj)),
            ),
    {
        self.data.push(NfObject::CmdObject(NfCmd::Add(obj)))
    }

    /// Adds an object with the `delete` command to the batch.
    pub fn delete(&mut self, obj: NfListObject)
        ensures
            final(self).items() == old(self).items().push(
                NfObject::CmdObject(NfCmd::Delete(obj)),
            ),
    {
        self.data.push(NfObject::CmdObject(NfCmd::Delete(obj)))
    }

    /// Adds a command to the batch.
    pub fn add_cmd(&mut self, cmd: NfCmd)
        ensures
            final(self).items() == old(self).items().push(NfObject::CmdObject(cmd)),
    {
        self.data.push(NfObject::CmdObject(cmd))
    }

    /// Adds a list object (without a command) directly to the batch.
    /// This corresponds to the descriptive output format of
    /// `nft -j list ruleset`.
    pub fn add_obj(&mut self, obj: NfListObject)
        ensures
            final(self).items() == old(self).items().push(NfObject::ListObject(obj)),
    {
        self.data.push(NfObject::ListObject(obj))
    }

    /// Adds all given objects to the batch, keeping their order.
    pub fn add_all(&mut self, objs: Vec<NfObject>)
        ensures
            final(self).items() == old(self).items() + objs@,
    {
        let mut rest = objs;
        let ghost given = rest@;
        let ghost before = self.data@;
        while rest.len() > 0
            invariant
                self.data@ + rest@ =~= before + given,
            decreases rest@.len(),
        {
            let ghost pd = self.data@;
            let ghost pr = rest@;
            let item = rest.remove(0);
            self.data.push(item);
            proof {
                assert(self.data@ + rest@ =~= pd + pr);
            }
        }
        proof {
            assert(self.data@ =~= self.data@ + rest@);
        }
    }

    /// Wraps the batch in an nftables document, preserving the exact
    /// insertion order of the items.
    pub fn to_nftables(self) -> (r: Nftables)
        ensures
            r.objects@ == self.items(),
    {
        Nftables { objects: self.data }
    }
}

} // verus!
