use vstd::prelude::*;
use crate::errors::ImportError;
use crate::records::{Account, Import, Transaction};

verus! {

/// The persistence interface the import engine needs: three related
/// tables, with uniqueness enforced on import and account ids and a
/// store-assigned numeric id for transactions.
#[derive(Debug)]
pub struct Store {
    pub imports: Vec<Import>,
    pub accounts: Vec<Account>,
    pub transactions: Vec<Transaction>,
}

impl Store {
    /// Some stored import already carries this id.
    pub open spec fn spec_has_import(&self, id: Seq<char>) -> bool {
        exists|i: int| 0 <= i < self.imports@.len() && (#[trigger] self.imports@[i]).id@ == id
    }

    /// Some stored account already carries this id.
    pub open spec fn spec_has_account(&self, id: Seq<char>) -> bool {
        exists|i: int| 0 <= i < self.accounts@.len() && (#[trigger] self.accounts@[i]).id@ == id
    }

    /// An empty store.
    pub fn new() -> (r: Store)
        ensures
            r.imports@.len() == 0,
            r.accounts@.len() == 0,
            r.transactions@.len() == 0,
    {
        Store { imports: Vec::new(), accounts: Vec::new(), transactions: Vec::new() }
    }

    /// Insert an import record; a second import with the same id is
    /// rejected, which is what makes re-imports of an identical file
    /// collide.
    pub fn insert_import(&mut self, imp: Import) -> (r: Result<(), ImportError>)
        ensures
            r is Ok <==> !old(self).spec_has_import(imp.id@),
            r is Ok ==> final(self).imports@ == old(self).imports@.push(imp),
            r is Err ==> *final(self) == *old(self),
            r matches Err(e) ==> (e matches ImportError::DuplicateImport { id } && id@ == imp.id@),
            final(self).accounts@ == old(self).accounts@,
            final(self).transactions@ == old(self).transactions@,
    {
        let mut i: usize = 0;
        while i < self.imports.len()
            invariant
                i <= self.imports@.len(),
                forall|k: int| 0 <= k < i ==> (#[trigger] self.imports@[k]).id@ != imp.id@,
            decreases self.imports@.len() - i,
        {
            if self.imports[i].id == imp.id {
                return Err(ImportError::DuplicateImport { id: imp.id });
            }
            i = i + 1;
        }
        self.imports.push(imp);
        Ok(())
    }

    /// Insert an account record; account ids are globally unique.
    pub fn insert_account(&mut self, account: Account) -> (r: Result<(), ImportError>)
        ensures
            r is Ok <==> !old(self).spec_has_account(account.id@),
            r is Ok ==> final(self).accounts@ == old(self).accounts@.push(account),
            r is Err ==> *final(self) == *old(self),
            r matches Err(e) ==> (e matches ImportError::DuplicateAccount { id } && id@
                == account.id@),
            final(self).imports@ == old(self).imports@,
            final(self).transactions@ == old(self).transactions@,
    {
        let mut i: usize = 0;
        while i < self.accounts.len()
            invariant
                i <= self.accounts@.len(),
                forall|k: int| 0 <= k < i ==> (#[trigger] self.accounts@[k]).id@ != account.id@,
            decreases self.accounts@.len() - i,
        {
            if self.accounts[i].id == account.id {
                return Err(ImportError::DuplicateAccount { id: account.id });
            }
            i = i + 1;
        }
        self.accounts.push(account);
        Ok(())
    }

    /// Insert a transaction record, assigning the next numeric id.
    pub fn insert_transaction(&mut self, t: Transaction) -> (r: Result<i32, ImportError>)
        ensures
            r is Ok <==> old(self).transactions@.len() < 0x7fff_ffff,
            r matches Ok(id) ==> {
                &&& id == old(self).transactions@.len() + 1
                &&& final(self).transactions@ == old(self).transactions@.push(
                    Transaction { id: Some(id), ..t },
                )
            },
            r is Err ==> *final(self) == *old(self),
            r matches Err(e) ==> e is StoreFull,
            final(self).imports@ == old(self).imports@,
            final(self).accounts@ == old(self).accounts@,
    {
        if self.transactions.len() < 0x7fff_ffff {
            let id: i32 = (self.transactions.len() + 1) as i32;
            self.transactions.push(Transaction { id: Some(id), ..t });
            Ok(id)
        } else {
            Err(ImportError::StoreFull)
        }
    }
}

} // verus!
