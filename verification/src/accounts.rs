use vstd::prelude::*;
use crate::cells::{Cell, Sheet, Workbook};
use crate::errors::ImportError;
use crate::manifest::{overlay_kind, overlay_label, lemma_overlay_fields, Manifest};
use crate::records::{Account, Import};
use crate::text::{account_id_of, extract_account_id, has_account_id, str_eq};

verus! {

/// The workbook-level summary sheet, excluded from account discovery.
pub open spec fn sheet_is_summary(s: Sheet) -> bool {
    s.name@ == "Summary"@
}

/// The canonical account id a sheet encodes, by ordered heuristics: first
/// the sheet name's `"… (VG…)"` pattern, then the same pattern on the text
/// of cell (0, 0).  The sheet-name match always wins; the cell is not
/// inspected when the name matches.
pub open spec fn spec_sheet_account_id(s: Sheet) -> Option<Seq<char>> {
    if has_account_id(s.name@) {
        Some(account_id_of(s.name@))
    } else {
        match s.spec_cell(0, 0) {
            Cell::Text(t) => if has_account_id(t@) {
                Some(account_id_of(t@))
            } else {
                None
            },
            _ => None,
        }
    }
}

/// A sheet represents an account region: it is not the summary sheet and
/// one of the heuristics yields an id.
pub open spec fn sheet_resolves(s: Sheet) -> bool {
    !sheet_is_summary(s) && spec_sheet_account_id(s) is Some
}

/// An account id is found the same whether it is encoded in the sheet
/// name or, for a sheet whose name lacks the pattern, in the text of cell
/// (0, 0).
pub proof fn lemma_account_id_source_equivalence(named: Sheet, celled: Sheet, s: Seq<char>)
    requires
        has_account_id(s),
        named.name@ == s,
        !has_account_id(celled.name@),
        celled.spec_cell(0, 0) matches Cell::Text(t) && t@ == s,
    ensures
        spec_sheet_account_id(named) == Some(account_id_of(s)),
        spec_sheet_account_id(celled) == Some(account_id_of(s)),
{
}

/// Extract a sheet's account id by the ordered heuristics; `None` means
/// the sheet is skipped, which is not an error.
pub fn resolve_account_id(sheet: &Sheet) -> (r: Option<String>)
    ensures
        r is Some <==> spec_sheet_account_id(*sheet) is Some,
        r matches Some(id) ==> (spec_sheet_account_id(*sheet) matches Some(v) && id@ == v),
{
    match extract_account_id(sheet.name.as_str()) {
        Some(id) => Some(id),
        None => match sheet.cell_at(0, 0) {
            Some(Cell::Text(t)) => extract_account_id(t.as_str()),
            _ => None,
        },
    }
}

/// The indices of the sheets that resolve to an account, in workbook
/// order.
pub open spec fn resolved_sheets(sheets: Seq<Sheet>) -> Seq<int>
    decreases sheets.len(),
{
    if sheets.len() == 0 {
        Seq::empty()
    } else {
        let prefix = resolved_sheets(sheets.drop_last());
        if sheet_resolves(sheets.last()) {
            prefix.push(sheets.len() - 1)
        } else {
            prefix
        }
    }
}

/// `resolved_sheets` lists exactly the resolving sheet indices, in
/// strictly increasing order.
pub proof fn lemma_resolved_sheets(sheets: Seq<Sheet>)
    ensures
        forall|k: int| 0 <= k < resolved_sheets(sheets).len() ==> {
            let i = #[trigger] resolved_sheets(sheets)[k];
            0 <= i < sheets.len() && sheet_resolves(sheets[i])
        },
        forall|i: int| 0 <= i < sheets.len() && sheet_resolves(#[trigger] sheets[i])
            ==> resolved_sheets(sheets).contains(i),
        forall|k1: int, k2: int| 0 <= k1 < k2 < resolved_sheets(sheets).len()
            ==> #[trigger] resolved_sheets(sheets)[k1] < #[trigger] resolved_sheets(sheets)[k2],
    decreases sheets.len(),
{
    if sheets.len() > 0 {
        lemma_resolved_sheets(sheets.drop_last());
        assert forall|i: int| 0 <= i < sheets.len() && sheet_resolves(#[trigger] sheets[i])
            implies resolved_sheets(sheets).contains(i) by {
            if i < sheets.len() - 1 {
                assert(sheets.drop_last()[i] == sheets[i]);
                let k = choose|k: int| 0 <= k < resolved_sheets(sheets.drop_last()).len()
                    && resolved_sheets(sheets.drop_last())[k] == i;
                assert(resolved_sheets(sheets)[k] == i);
            } else {
                assert(resolved_sheets(sheets).last() == i);
            }
        }
    }
}

/// Two distinct sheets of one workbook resolve to the same account id: a
/// structural conflict that is surfaced rather than silently overwritten.
pub open spec fn has_duplicate_ids(sheets: Seq<Sheet>) -> bool {
    exists|i: int, j: int|
        0 <= i < j < sheets.len() && sheet_resolves(#[trigger] sheets[i]) && sheet_resolves(
            #[trigger] sheets[j],
        ) && spec_sheet_account_id(sheets[i]) == spec_sheet_account_id(sheets[j])
}

/// A discovered account, bound to the sheet it came from so that its
/// transactions can be scanned later.
#[derive(Debug)]
pub struct AccountBinding {
    pub account: Account,
    pub sheet_index: usize,
}

/// The account built for a resolving sheet: ids from the sheet and the
/// import, label and kind from the manifest overlay when an entry
/// matches, unset otherwise.
pub open spec fn account_matches_sheet(a: Account, s: Sheet, manifest: Manifest, import: Import) -> bool {
    &&& (spec_sheet_account_id(s) matches Some(id) && a.id@ == id)
    &&& a.platform_id@ == import.platform_id@
    &&& a.import_id@ == import.id@
    &&& (overlay_label(manifest.accounts@, a.id@) is None ==> a.label is None)
    &&& (overlay_label(manifest.accounts@, a.id@) matches Some(l) ==> (a.label matches Some(al)
        && al@ == l))
    &&& (overlay_kind(manifest.accounts@, a.id@) is None ==> a.kind is None)
    &&& (overlay_kind(manifest.accounts@, a.id@) matches Some(k) ==> a.kind == Some(k))
}

/// Discover the accounts of a workbook: every sheet other than the
/// summary sheet that encodes an account id yields one account, with the
/// manifest's metadata overlaid.  Two sheets resolving to the same id are
/// a structural conflict.
pub fn create_accounts(wb: &Workbook, manifest: &Manifest, import: &Import) -> (r: Result<
    Vec<AccountBinding>,
    ImportError,
>)
    ensures
        r is Ok <==> !has_duplicate_ids(wb.sheets@),
        r matches Err(e) ==> (e matches ImportError::DuplicateAccountId { id } && exists|i: int, j: int|
            0 <= i < j < wb.sheets@.len() && sheet_resolves(#[trigger] wb.sheets@[i])
                && sheet_resolves(#[trigger] wb.sheets@[j]) && spec_sheet_account_id(wb.sheets@[i])
                == spec_sheet_account_id(wb.sheets@[j]) && Some(id@) == spec_sheet_account_id(
                wb.sheets@[j],
            )),
        r matches Ok(v) ==> {
            &&& v@.len() == resolved_sheets(wb.sheets@).len()
            &&& forall|k: int| 0 <= k < v@.len() ==> {
                &&& (#[trigger] v@[k]).sheet_index == resolved_sheets(wb.sheets@)[k]
                &&& account_matches_sheet(
                    v@[k].account,
                    wb.sheets@[resolved_sheets(wb.sheets@)[k]],
                    *manifest,
                    *import,
                )
            }
        },
{
    let mut out: Vec<AccountBinding> = Vec::new();
    let mut si: usize = 0;
    while si < wb.sheets.len()
        invariant
            si <= wb.sheets@.len(),
            out@.len() == resolved_sheets(wb.sheets@.subrange(0, si as int)).len(),
            forall|k: int| 0 <= k < out@.len() ==> {
                &&& (#[trigger] out@[k]).sheet_index == resolved_sheets(
                    wb.sheets@.subrange(0, si as int),
                )[k]
                &&& out@[k].sheet_index < si
                &&& account_matches_sheet(
                    out@[k].account,
                    wb.sheets@[out@[k].sheet_index as int],
                    *manifest,
                    *import,
                )
            },
            forall|i: int, j: int|
                0 <= i < j < si && sheet_resolves(#[trigger] wb.sheets@[i]) && sheet_resolves(
                    #[trigger] wb.sheets@[j],
                ) ==> spec_sheet_account_id(wb.sheets@[i]) != spec_sheet_account_id(wb.sheets@[j]),
        decreases wb.sheets@.len() - si,
    {
        let sheet = &wb.sheets[si];
        let mut resolved: Option<String> = None;
        if !str_eq(sheet.name.as_str(), "Summary") {
            resolved = resolve_account_id(sheet);
        }
        match resolved {
            None => {
                proof {
                    assert(!sheet_resolves(wb.sheets@[si as int]));
                }
            },
            Some(id) => {
                proof {
                    let pre = wb.sheets@.subrange(0, si as int);
                    lemma_resolved_sheets(pre);
                    assert forall|m: int| 0 <= m < out@.len() implies {
                        &&& sheet_resolves(wb.sheets@[(#[trigger] out@[m]).sheet_index as int])
                        &&& (spec_sheet_account_id(wb.sheets@[out@[m].sheet_index as int])
                            matches Some(v) && out@[m].account.id@ == v)
                    } by {
                        let i = out@[m].sheet_index as int;
                        assert(resolved_sheets(pre)[m] == i);
                        assert(pre[i] == wb.sheets@[i]);
                    }
                }
                // Reject a second sheet that resolves to an id already seen.
                let mut k: usize = 0;
                while k < out.len()
                    invariant
                        k <= out@.len(),
                        spec_sheet_account_id(wb.sheets@[si as int]) == Some(id@),
                        si < wb.sheets@.len(),
                        sheet_resolves(wb.sheets@[si as int]),
                        forall|m: int| 0 <= m < out@.len() ==> {
                            &&& (#[trigger] out@[m]).sheet_index < si
                            &&& sheet_resolves(wb.sheets@[out@[m].sheet_index as int])
                            &&& (spec_sheet_account_id(wb.sheets@[out@[m].sheet_index as int])
                                matches Some(v) && out@[m].account.id@ == v)
                        },
                        forall|m: int| 0 <= m < k ==> (#[trigger] out@[m]).account.id@ != id@,
                    decreases out@.len() - k,
                {
                    if out[k].account.id == id {
                        proof {
                            let i = out@[k as int].sheet_index as int;
                            assert(sheet_resolves(wb.sheets@[i]));
                            assert(spec_sheet_account_id(wb.sheets@[i]) == Some(id@));
                            assert(spec_sheet_account_id(wb.sheets@[si as int]) == Some(id@));
                        }
                        return Err(ImportError::DuplicateAccountId { id });
                    }
                    k = k + 1;
                }
                // No earlier sheet used this id: every earlier resolving
                // sheet appears in `out`.
                proof {
                    lemma_resolved_sheets(wb.sheets@.subrange(0, si as int));
                    assert forall|i: int|
                        0 <= i < si && sheet_resolves(#[trigger] wb.sheets@[i]) implies
                        spec_sheet_account_id(wb.sheets@[i]) != Some(id@) by {
                        let pre = wb.sheets@.subrange(0, si as int);
                        assert(pre[i] == wb.sheets@[i]);
                        assert(resolved_sheets(pre).contains(i));
                        let m = choose|m: int| 0 <= m < resolved_sheets(pre).len()
                            && resolved_sheets(pre)[m] == i;
                        assert(out@[m].sheet_index == i);
                        assert(out@[m].account.id@ != id@);
                    }
                }
                let mut account = Account {
                    id,
                    platform_id: import.platform_id.clone(),
                    import_id: import.id.clone(),
                    label: None,
                    kind: None,
                };
                let ghost base = account;
                manifest.apply_account_metadata(&mut account);
                proof {
                    lemma_overlay_fields(manifest.accounts@, base);
                }
                out.push(AccountBinding { account, sheet_index: si });
            },
        }
        proof {
            let pre = wb.sheets@.subrange(0, si as int);
            let post = wb.sheets@.subrange(0, si + 1 as int);
            assert(post.drop_last() =~= pre);
            assert(post.last() == wb.sheets@[si as int]);
        }
        si = si + 1;
    }
    proof {
        assert(wb.sheets@.subrange(0, wb.sheets@.len() as int) =~= wb.sheets@);
        // No duplicate pair exists: the invariant covers every pair.
    }
    Ok(out)
}


/// Without a duplicate-id conflict, distinct resolving sheets carry
/// distinct account ids.
pub proof fn lemma_resolved_ids_distinct(sheets: Seq<Sheet>, k1: int, k2: int)
    requires
        !has_duplicate_ids(sheets),
        0 <= k1 < k2 < resolved_sheets(sheets).len(),
    ensures
        spec_sheet_account_id(sheets[resolved_sheets(sheets)[k1]]) != spec_sheet_account_id(
            sheets[resolved_sheets(sheets)[k2]],
        ),
{
    lemma_resolved_sheets(sheets);
    let i = resolved_sheets(sheets)[k1];
    let j = resolved_sheets(sheets)[k2];
    assert(0 <= i < j < sheets.len());
    assert(sheet_resolves(sheets[i]) && sheet_resolves(sheets[j]));
}

} // verus!

