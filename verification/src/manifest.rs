use vstd::prelude::*;
use crate::errors::ImportError;
use crate::integrity::{sha256_hex_of, validate_integrity};
use crate::records::Account;
use crate::text::str_eq;

verus! {

/// The export source.  A closed enumeration, fixed at compile time; each
/// platform carries a stable string id and the file extension its exports
/// use.
#[derive(Clone, Copy, Debug, PartialEq, Eq, Structural)]
pub enum Platform {
    VanguardUK,
}

impl Platform {
    /// The file extension of this platform's export files.
    pub fn file_extension(&self) -> (r: &'static str)
        ensures
            *self is VanguardUK ==> r@ == "Xls"@,
    {
        match self {
            Platform::VanguardUK => "Xls",
        }
    }

    /// The stable string id this platform is persisted under.
    pub fn id(&self) -> (r: &'static str)
        ensures
            *self is VanguardUK ==> r@ == "vanguard_uk"@,
    {
        match self {
            Platform::VanguardUK => "vanguard_uk",
        }
    }

    /// The platform tag is one this engine knows.
    pub open spec fn spec_tag_known(tag: Seq<char>) -> bool {
        tag == "vanguard_uk"@
    }

    /// Parse a platform tag; `None` exactly for unknown tags.
    pub fn from_id(tag: &str) -> (r: Option<Platform>)
        ensures
            r is Some <==> Platform::spec_tag_known(tag@),
            r matches Some(p) ==> p is VanguardUK,
    {
        if str_eq(tag, "vanguard_uk") {
            Some(Platform::VanguardUK)
        } else {
            None
        }
    }
}

/// The kind of an account: tax-advantaged or general.
#[derive(Clone, Copy, Debug, PartialEq, Eq, Structural)]
pub enum AccountKind {
    ISA,
    GeneralInvestmentAccount,
}

impl AccountKind {
    /// The kind tag is one this engine knows.
    pub open spec fn spec_tag_known(tag: Seq<char>) -> bool {
        tag == "isa"@ || tag == "gia"@
    }

    /// The kind a known tag denotes.
    pub open spec fn spec_of_tag(tag: Seq<char>) -> AccountKind {
        if tag == "isa"@ {
            AccountKind::ISA
        } else {
            AccountKind::GeneralInvestmentAccount
        }
    }

    /// Parse an account-kind tag; `None` exactly for unknown tags.
    pub fn from_id(tag: &str) -> (r: Option<AccountKind>)
        ensures
            r is Some <==> AccountKind::spec_tag_known(tag@),
            r matches Some(k) ==> k == AccountKind::spec_of_tag(tag@),
    {
        if str_eq(tag, "isa") {
            Some(AccountKind::ISA)
        } else if str_eq(tag, "gia") {
            Some(AccountKind::GeneralInvestmentAccount)
        } else {
            None
        }
    }

    /// The stable string id this kind is persisted under.
    pub fn id(&self) -> (r: &'static str)
        ensures
            *self is ISA ==> r@ == "isa"@,
            *self is GeneralInvestmentAccount ==> r@ == "gia"@,
    {
        match self {
            AccountKind::ISA => "isa",
            AccountKind::GeneralInvestmentAccount => "gia",
        }
    }
}

/// A declared account override from the descriptor: label and kind to
/// overlay onto the discovered account with the same id.
#[derive(Debug)]
pub struct AccountMetadata {
    pub id: String,
    pub label: String,
    pub kind: AccountKind,
}

/// What one metadata entry does to an account: when the ids match, the
/// label and kind are overlaid; otherwise the account is untouched.
pub open spec fn spec_apply_one(m: AccountMetadata, a: Account) -> Account {
    if m.id@ == a.id@ {
        Account { label: Some(m.label), kind: Some(m.kind), ..a }
    } else {
        a
    }
}

/// The effect of applying a whole list of metadata entries in order; a
/// later matching entry overrides an earlier one.
pub open spec fn spec_overlay(metas: Seq<AccountMetadata>, a: Account) -> Account
    decreases metas.len(),
{
    if metas.len() == 0 {
        a
    } else {
        spec_apply_one(metas.last(), spec_overlay(metas.drop_last(), a))
    }
}

/// The label the overlay leaves on an account with this id: the last
/// matching entry's label, or `None` for "no matching entry".
pub open spec fn overlay_label(metas: Seq<AccountMetadata>, id: Seq<char>) -> Option<Seq<char>>
    decreases metas.len(),
{
    if metas.len() == 0 {
        None
    } else if metas.last().id@ == id {
        Some(metas.last().label@)
    } else {
        overlay_label(metas.drop_last(), id)
    }
}

/// The kind the overlay leaves on an account with this id, as
/// `overlay_label`.
pub open spec fn overlay_kind(metas: Seq<AccountMetadata>, id: Seq<char>) -> Option<AccountKind>
    decreases metas.len(),
{
    if metas.len() == 0 {
        None
    } else if metas.last().id@ == id {
        Some(metas.last().kind)
    } else {
        overlay_kind(metas.drop_last(), id)
    }
}

/// The overlay never touches an account's identity fields, and sets label
/// and kind exactly when some entry matches the account's id.
pub proof fn lemma_overlay_fields(metas: Seq<AccountMetadata>, a: Account)
    ensures
        spec_overlay(metas, a).id == a.id,
        spec_overlay(metas, a).platform_id == a.platform_id,
        spec_overlay(metas, a).import_id == a.import_id,
        overlay_label(metas, a.id@) is None ==> spec_overlay(metas, a).label == a.label,
        overlay_label(metas, a.id@) matches Some(l) ==> (spec_overlay(metas, a).label matches Some(
            al,
        ) && al@ == l),
        overlay_kind(metas, a.id@) is None ==> spec_overlay(metas, a).kind == a.kind,
        overlay_kind(metas, a.id@) == Some(AccountKind::ISA) ==> spec_overlay(metas, a).kind
            == Some(AccountKind::ISA),
        overlay_kind(metas, a.id@) == Some(AccountKind::GeneralInvestmentAccount) ==> spec_overlay(
            metas,
            a,
        ).kind == Some(AccountKind::GeneralInvestmentAccount),
    decreases metas.len(),
{
    if metas.len() > 0 {
        lemma_overlay_fields(metas.drop_last(), a);
    }
}

impl AccountMetadata {
    /// Whether this entry's declared id names the given account.
    pub fn matches(&self, account: &Account) -> (r: bool)
        ensures
            r == (self.id@ == account.id@),
    {
        self.id == account.id
    }

    /// Overlay this entry onto the account when the ids match.
    pub fn apply(&self, account: &mut Account)
        ensures
            *final(account) == spec_apply_one(*self, *old(account)),
    {
        if self.matches(account) {
            account.label = Some(self.label.clone());
            account.kind = Some(self.kind);
        }
    }
}

/// The descriptor accompanying an import file: the declared fingerprint,
/// the source platform, and the account metadata overrides.
#[derive(Debug)]
pub struct Manifest {
    pub sha256sum: String,
    pub platform: Platform,
    pub accounts: Vec<AccountMetadata>,
}

/// A descriptor as decoded from text, before its tags are checked: the
/// platform and account kinds are still raw strings.
#[derive(Debug)]
pub struct RawManifest {
    pub sha256sum: String,
    pub platform: String,
    pub accounts: Vec<RawAccountMetadata>,
}

/// One account override as decoded from text.
#[derive(Debug)]
pub struct RawAccountMetadata {
    pub id: String,
    pub label: String,
    pub kind: String,
}

impl Manifest {
    /// Check a raw descriptor into a manifest.  Fails on an unknown
    /// platform tag, then on the first unknown account-kind tag.
    pub fn from_raw(raw: &RawManifest) -> (r: Result<Manifest, ImportError>)
        ensures
            r is Ok <==> (Platform::spec_tag_known(raw.platform@) && forall|i: int|
                0 <= i < raw.accounts@.len() ==> AccountKind::spec_tag_known(
                    #[trigger] raw.accounts@[i].kind@,
                )),
            r matches Err(ImportError::UnknownPlatform { tag }) ==> !Platform::spec_tag_known(
                raw.platform@,
            ) && tag@ == raw.platform@,
            r matches Err(ImportError::UnknownAccountKind { kind }) ==> Platform::spec_tag_known(
                raw.platform@,
            ) && exists|i: int|
                0 <= i < raw.accounts@.len() && !AccountKind::spec_tag_known(
                    #[trigger] raw.accounts@[i].kind@,
                ) && kind@ == raw.accounts@[i].kind@,
            r is Err ==> (r matches Err(ImportError::UnknownPlatform { .. }) || r matches Err(
                ImportError::UnknownAccountKind { .. },
            )),
            r matches Ok(m) ==> {
                &&& m.sha256sum@ == raw.sha256sum@
                &&& m.platform is VanguardUK
                &&& m.accounts@.len() == raw.accounts@.len()
                &&& forall|i: int| 0 <= i < raw.accounts@.len() ==> {
                    &&& (#[trigger] m.accounts@[i]).id@ == raw.accounts@[i].id@
                    &&& m.accounts@[i].label@ == raw.accounts@[i].label@
                    &&& m.accounts@[i].kind == AccountKind::spec_of_tag(raw.accounts@[i].kind@)
                }
            },
    {
        let platform = match Platform::from_id(raw.platform.as_str()) {
            Some(p) => p,
            None => {
                return Err(ImportError::UnknownPlatform { tag: raw.platform.clone() });
            },
        };
        let mut accounts: Vec<AccountMetadata> = Vec::new();
        let mut i: usize = 0;
        while i < raw.accounts.len()
            invariant
                i <= raw.accounts@.len(),
                accounts@.len() == i,
                Platform::spec_tag_known(raw.platform@),
                forall|k: int| 0 <= k < i ==> AccountKind::spec_tag_known(
                    #[trigger] raw.accounts@[k].kind@,
                ),
                forall|k: int| 0 <= k < i ==> {
                    &&& (#[trigger] accounts@[k]).id@ == raw.accounts@[k].id@
                    &&& accounts@[k].label@ == raw.accounts@[k].label@
                    &&& accounts@[k].kind == AccountKind::spec_of_tag(raw.accounts@[k].kind@)
                },
            decreases raw.accounts@.len() - i,
        {
            let entry = &raw.accounts[i];
            let kind = match AccountKind::from_id(entry.kind.as_str()) {
                Some(k) => k,
                None => {
                    proof {
                        assert(!AccountKind::spec_tag_known(raw.accounts@[i as int].kind@));
                    }
                    return Err(ImportError::UnknownAccountKind { kind: entry.kind.clone() });
                },
            };
            accounts.push(
                AccountMetadata { id: entry.id.clone(), label: entry.label.clone(), kind },
            );
            i = i + 1;
        }
        Ok(Manifest { sha256sum: raw.sha256sum.clone(), platform, accounts })
    }

    /// Recompute the import file's fingerprint and compare it to the
    /// declared one.  This is the hard gate before any further processing.
    pub fn validate(&self, contents: &Vec<u8>) -> (r: Result<(), ImportError>)
        ensures
            r is Ok <==> sha256_hex_of(contents@) == self.sha256sum@,
            r matches Err(e) ==> (e matches ImportError::IntegrityMismatch { computed, declared }
                && computed@ == sha256_hex_of(contents@) && declared@ == self.sha256sum@),
    {
        validate_integrity(contents, &self.sha256sum)
    }

    /// Overlay every matching metadata entry onto the account, in order.
    pub fn apply_account_metadata(&self, account: &mut Account)
        ensures
            *final(account) == spec_overlay(self.accounts@, *old(account)),
    {
        let mut i: usize = 0;
        while i < self.accounts.len()
            invariant
                i <= self.accounts@.len(),
                *account == spec_overlay(self.accounts@.subrange(0, i as int), *old(account)),
            decreases self.accounts@.len() - i,
        {
            self.accounts[i].apply(account);
            proof {
                let pre = self.accounts@.subrange(0, i as int);
                let post = self.accounts@.subrange(0, i + 1 as int);
                assert(post.drop_last() =~= pre);
                assert(post.last() == self.accounts@[i as int]);
            }
            i = i + 1;
        }
        proof {
            assert(self.accounts@.subrange(0, self.accounts@.len() as int) =~= self.accounts@);
        }
    }
}

} // verus!
