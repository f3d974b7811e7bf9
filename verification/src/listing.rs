//! The inventory of a library root's manifest files.
//!
//! Listing scans the entries directly inside a root, keeps the regular
//! files named `appmanifest_<anything>` in enumeration order, and emits one
//! identifier/name row per manifest. A read failure or a missing `appid` or
//! `name` field stops the listing at that entry: the first failure aborts
//! the remainder rather than skipping the entry. (Backup and restore, by
//! contrast, continue past per-item failures; the asymmetry is preserved
//! deliberately for compatibility.) An empty root lists as an empty
//! inventory, not as an error.

use vstd::prelude::*;

use crate::errors::{Field, SteamError};
use crate::manifest::{extract_field, AppManifest};

verus! {

/// One directory entry of a root, as the caller's enumeration primitive
/// reported it: its file name and whether it is a regular file.
pub struct RootEntry {
    pub name: String,
    pub is_file: bool,
}

impl View for RootEntry {
    type V = (Seq<char>, bool);

    open spec fn view(&self) -> (Seq<char>, bool) {
        (self.name@, self.is_file)
    }
}

/// File names the listing keeps: `appmanifest_` followed by anything.
pub open spec fn is_manifest_name_spec(name: Seq<char>) -> bool {
    name.len() >= "appmanifest_"@.len() && name.subrange(0, "appmanifest_"@.len() as int)
        == "appmanifest_"@
}

/// The names the listing keeps, in enumeration order: regular files named
/// like manifests.
pub open spec fn manifest_names_spec(entries: Seq<RootEntry>) -> Seq<Seq<char>>
    decreases entries.len(),
{
    if entries.len() == 0 {
        Seq::empty()
    } else {
        let kept = manifest_names_spec(entries.drop_last());
        let e = entries.last();
        if e.is_file && is_manifest_name_spec(e.name@) {
            kept.push(e.name@)
        } else {
            kept
        }
    }
}

/// Whether one file name is a manifest's: the literal prefix
/// `appmanifest_`, case-sensitively.
#[verifier::loop_isolation(false)]
pub fn is_manifest_file_name(name: &str) -> (r: bool)
    ensures
        r == is_manifest_name_spec(name@),
{
    let prefix = "appmanifest_";
    let plen = prefix.unicode_len();
    let nlen = name.unicode_len();
    if nlen < plen {
        return false;
    }
    let mut k: usize = 0;
    while k < plen
        invariant
            0 <= k <= plen,
            plen == prefix@.len(),
            nlen == name@.len(),
            plen <= nlen,
            forall|j: int| 0 <= j < k ==> name@[j] == prefix@[j],
        decreases plen - k,
    {
        if name.get_char(k) != prefix.get_char(k) {
            proof {
                if name@.subrange(0, plen as int) == prefix@ {
                    assert(name@.subrange(0, plen as int)[k as int] == name@[k as int]);
                    assert(name@.subrange(0, plen as int)[k as int] == prefix@[k as int]);
                }
            }
            return false;
        }
        k += 1;
    }
    proof {
        assert(name@.subrange(0, plen as int) =~= prefix@);
    }
    true
}

/// Keep the manifest files among a root's entries, in the order the
/// enumeration yielded them — the listing's order is whatever the
/// directory listing's was, deliberately not re-sorted.
#[verifier::loop_isolation(false)]
pub fn find_manifests_in_folder(entries: &Vec<RootEntry>) -> (r: Vec<String>)
    ensures
        r.deep_view() == manifest_names_spec(entries@),
{
    let mut kept: Vec<String> = Vec::new();
    let mut i: usize = 0;
    proof {
        assert(entries@.subrange(0, 0) =~= Seq::<RootEntry>::empty());
        assert(kept.deep_view() =~= manifest_names_spec(entries@.subrange(0, 0)));
    }
    while i < entries.len()
        invariant
            0 <= i <= entries@.len(),
            kept.deep_view() == manifest_names_spec(entries@.subrange(0, i as int)),
        decreases entries@.len() - i,
    {
        proof {
            assert(entries@.subrange(0, i + 1).drop_last() =~= entries@.subrange(0, i as int));
            assert(entries@.subrange(0, i + 1).last() == entries@[i as int]);
        }
        let ghost pre = kept.deep_view();
        if entries[i].is_file && is_manifest_file_name(entries[i].name.as_str()) {
            kept.push(entries[i].name.clone());
            proof {
                assert(kept.deep_view() =~= pre.push(entries@[i as int].name@));
            }
        }
        i += 1;
    }
    proof {
        assert(entries@.subrange(0, entries@.len() as int) =~= entries@);
    }
    kept
}

/// One row of the inventory: an application identifier and its display
/// name.
pub struct ListingRow {
    pub appid: String,
    pub game_name: String,
}

impl View for ListingRow {
    type V = (Seq<char>, Seq<char>);

    open spec fn view(&self) -> (Seq<char>, Seq<char>) {
        (self.appid@, self.game_name@)
    }
}

impl DeepView for ListingRow {
    type V = (Seq<char>, Seq<char>);

    open spec fn deep_view(&self) -> (Seq<char>, Seq<char>) {
        self.view()
    }
}

/// The listing result of one manifest text (`None`: the read failed):
/// its identifier and name, or the first of the distinct per-entry
/// failures — unreadable text, missing `appid`, missing `name`.
pub open spec fn row_spec(text: Option<Seq<char>>) -> Result<(Seq<char>, Seq<char>), SteamError> {
    match text {
        None => Err(SteamError::ManifestUnreadable),
        Some(t) => match extract_field(t, "appid"@) {
            None => Err(SteamError::FieldMissing(Field::AppId)),
            Some(id) => match extract_field(t, "name"@) {
                None => Err(SteamError::FieldMissing(Field::GameName)),
                Some(n) => Ok((id, n)),
            },
        },
    }
}

/// The whole listing of a sequence of read results: one row per manifest,
/// in order — unless some entry fails, in which case the first failure
/// (in order) aborts the listing and nothing is listed.
pub open spec fn rows_spec(texts: Seq<Option<Seq<char>>>) -> Result<
    Seq<(Seq<char>, Seq<char>)>,
    SteamError,
>
    decreases texts.len(),
{
    if texts.len() == 0 {
        Ok(Seq::empty())
    } else {
        match row_spec(texts[0]) {
            Err(e) => Err(e),
            Ok(row) => match rows_spec(texts.drop_first()) {
                Err(e) => Err(e),
                Ok(rest) => Ok(seq![row] + rest),
            },
        }
    }
}

/// The inventory row of one manifest.
pub fn listing_row(m: &AppManifest) -> (r: Result<ListingRow, SteamError>)
    ensures
        match r {
            Ok(row) => row_spec(Some(m@)) == Ok::<_, SteamError>(row@),
            Err(e) => row_spec(Some(m@)) == Err::<(Seq<char>, Seq<char>), _>(e),
        },
{
    let appid = match m.appid() {
        None => {
            return Err(SteamError::FieldMissing(Field::AppId));
        },
        Some(v) => String::from_str(v),
    };
    let game_name = match m.game_name() {
        None => {
            return Err(SteamError::FieldMissing(Field::GameName));
        },
        Some(v) => String::from_str(v),
    };
    Ok(ListingRow { appid, game_name })
}

/// List a root's manifests from the read results of its manifest files, in
/// enumeration order: all rows, or the first failure. An empty root — no
/// manifest files at all — lists as `Ok` of an empty inventory.
#[verifier::loop_isolation(false)]
pub fn list_rows(texts: &Vec<Option<String>>) -> (r: Result<Vec<ListingRow>, SteamError>)
    ensures
        match r {
            Ok(rows) => rows_spec(texts.deep_view()) == Ok::<_, SteamError>(rows.deep_view()),
            Err(e) => rows_spec(texts.deep_view()) == Err::<Seq<(Seq<char>, Seq<char>)>, _>(e),
        },
{
    let ghost all = texts.deep_view();
    let mut rows: Vec<ListingRow> = Vec::new();
    let mut i: usize = 0;
    proof {
        assert(all.skip(0) =~= all);
    }
    while i < texts.len()
        invariant
            0 <= i <= texts@.len(),
            all.len() == texts@.len(),
            rows_spec(all) == match rows_spec(all.skip(i as int)) {
                Ok(rest) => Ok::<_, SteamError>(rows.deep_view() + rest),
                Err(e) => Err::<Seq<(Seq<char>, Seq<char>)>, _>(e),
            },
        decreases texts@.len() - i,
    {
        proof {
            assert(all.skip(i as int).len() > 0);
            assert(all.skip(i as int)[0] == all[i as int]);
            assert(all.skip(i as int).drop_first() =~= all.skip(i + 1));
            assert(all[i as int] == texts@[i as int].deep_view());
        }
        let ghost pre = rows.deep_view();
        match &texts[i] {
            None => {
                return Err(SteamError::ManifestUnreadable);
            },
            Some(t) => {
                let m = AppManifest::new(t.clone());
                match listing_row(&m) {
                    Err(e) => {
                        return Err(e);
                    },
                    Ok(row) => {
                        let ghost rv = row@;
                        rows.push(row);
                        proof {
                            assert(rows.deep_view() =~= pre.push(rv));
                            if rows_spec(all.skip(i + 1)) is Ok {
                                let rest = rows_spec(all.skip(i + 1))->Ok_0;
                                assert(pre + (seq![rv] + rest) =~= pre.push(rv) + rest);
                            }
                        }
                    },
                }
            },
        }
        i += 1;
    }
    proof {
        assert(all.skip(texts@.len() as int) =~= Seq::<Option<Seq<char>>>::empty());
    }
    Ok(rows)
}

/// The printed inventory line of one row: identifier, tab, `- `, name.
pub fn render_row(row: &ListingRow) -> (r: String)
    ensures
        r@ == row.appid@ + "\t- "@ + row.game_name@,
{
    let mut s = row.appid.clone();
    s.append("\t- ");
    s.append(row.game_name.as_str());
    s
}

} // verus!
