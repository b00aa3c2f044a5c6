//! Turning the provider's raw change items into [`DriveDelta`] values.
//!
//! The wire layer hands in one [`DriveItem`] per listed object, already
//! reduced to plain fields.  Folders, items without a usable name, and
//! items whose timestamp is missing or malformed are filtered out; the
//! rest become deltas whose path is the parent path with its twelve-
//! character `/drive/root:` prefix dropped, a slash, and the name.

use vstd::prelude::*;

use crate::codec::{parse_iso_date, parse_iso_spec};
use crate::engine::DeltaV;
use crate::{push_char, DriveDelta, DriveDeltaType};

verus! {

/// One raw item of the provider's change feed, as plain values.
pub struct DriveItem {
    pub id: String,
    pub name: Option<String>,
    pub parent_path: Option<String>,
    pub last_modified: Option<String>,
    pub is_folder: bool,
    pub is_deleted: bool,
}

/// The mathematical shadow of [`DriveItem`].
pub struct DriveItemV {
    pub id: Seq<char>,
    pub name: Option<Seq<char>>,
    pub parent_path: Option<Seq<char>>,
    pub last_modified: Option<Seq<char>>,
    pub is_folder: bool,
    pub is_deleted: bool,
}

impl View for DriveItem {
    type V = DriveItemV;

    open spec fn view(&self) -> DriveItemV {
        DriveItemV {
            id: self.id@,
            name: match self.name {
                Option::None => Option::None,
                Option::Some(ref n) => Option::Some(n@),
            },
            parent_path: match self.parent_path {
                Option::None => Option::None,
                Option::Some(ref p) => Option::Some(p@),
            },
            last_modified: match self.last_modified {
                Option::None => Option::None,
                Option::Some(ref t) => Option::Some(t@),
            },
            is_folder: self.is_folder,
            is_deleted: self.is_deleted,
        }
    }
}

/// The delta one item yields, if any: folders, unnamed or empty-named
/// items, short parent paths, and missing or malformed timestamps yield
/// nothing.
pub open spec fn delta_of_item(it: DriveItemV) -> Option<DeltaV> {
    if it.is_folder {
        None
    } else {
        match it.name {
            None => None,
            Some(nm) => {
                if nm.len() == 0 {
                    None
                } else {
                    match it.last_modified {
                        None => None,
                        Some(ts) => match parse_iso_spec(ts) {
                            None => None,
                            Some(lm) => {
                                match it.parent_path {
                                    Some(p) => {
                                        if p.len() < 12 {
                                            None
                                        } else {
                                            Some(
                                                DeltaV {
                                                    cloud_id: it.id,
                                                    file_path: p.skip(12) + seq!['/'] + nm,
                                                    last_modified: lm,
                                                    deleted: it.is_deleted,
                                                },
                                            )
                                        }
                                    },
                                    None => Some(
                                        DeltaV {
                                            cloud_id: it.id,
                                            file_path: seq!['/'] + nm,
                                            last_modified: lm,
                                            deleted: it.is_deleted,
                                        },
                                    ),
                                }
                            },
                        },
                    }
                }
            },
        }
    }
}

/// The deltas of a whole feed, in feed order.
pub open spec fn deltas_of(items: Seq<DriveItemV>) -> Seq<DeltaV>
    decreases items.len(),
{
    if items.len() == 0 {
        Seq::empty()
    } else {
        (match delta_of_item(items[0]) {
            Some(d) => seq![d],
            None => Seq::empty(),
        }) + deltas_of(items.drop_first())
    }
}

proof fn lemma_deltas_of_concat(a: Seq<DriveItemV>, b: Seq<DriveItemV>)
    ensures
        deltas_of(a + b) == deltas_of(a) + deltas_of(b),
    decreases a.len(),
{
    if a.len() == 0 {
        assert(a + b =~= b);
        assert(deltas_of(a) + deltas_of(b) =~= deltas_of(b));
    } else {
        lemma_deltas_of_concat(a.drop_first(), b);
        assert((a + b).drop_first() =~= a.drop_first() + b);
        assert(deltas_of(a + b) =~= deltas_of(a) + deltas_of(b));
    }
}

fn delta_of(item: &DriveItem) -> (r: Option<DriveDelta>)
    ensures
        match r {
            Some(d) => delta_of_item(item@) == Some(d@),
            None => delta_of_item(item@) is None,
        },
{
    if item.is_folder {
        return None;
    }
    let nm: &String = match &item.name {
        Some(n) => n,
        None => {
            return None;
        },
    };
    if nm.as_str().unicode_len() == 0 {
        return None;
    }
    let ts: &String = match &item.last_modified {
        Some(t) => t,
        None => {
            return None;
        },
    };
    let last_modified = match parse_iso_date(ts.as_str()) {
        Some(t) => t,
        None => {
            return None;
        },
    };
    let file_path = match &item.parent_path {
        Some(p) => {
            let plen = p.as_str().unicode_len();
            if plen < 12 {
                return None;
            }
            let mut path = p.as_str().substring_char(12, plen).to_owned();
            push_char(&mut path, '/');
            path.append(nm.as_str());
            proof {
                assert(path@ =~= p@.skip(12) + seq!['/'] + nm@);
            }
            path
        },
        None => {
            let mut path = String::new();
            push_char(&mut path, '/');
            path.append(nm.as_str());
            proof {
                assert(path@ =~= seq!['/'] + nm@);
            }
            path
        },
    };
    let delta_type = if item.is_deleted {
        DriveDeltaType::Deleted
    } else {
        DriveDeltaType::CreatedOrModified
    };
    Some(DriveDelta { cloud_id: item.id.clone(), file_path, last_modified, delta_type })
}

/// Maps a fetched change feed to its deltas, in order, dropping folders
/// and items without a usable name or timestamp.
pub fn get_drive_delta(items: &Vec<DriveItem>) -> (deltas: Vec<DriveDelta>)
    ensures
        deltas@.map_values(|d: DriveDelta| d@) == deltas_of(
            items@.map_values(|it: DriveItem| it@),
        ),
{
    let n = items.len();
    let mut deltas: Vec<DriveDelta> = Vec::new();
    let mut i: usize = 0;
    proof {
        assert(items@.map_values(|it: DriveItem| it@).take(0) =~= Seq::<DriveItemV>::empty());
        assert(deltas@.map_values(|d: DriveDelta| d@) =~= Seq::<DeltaV>::empty());
    }
    while i < n
        invariant
            n == items@.len(),
            i <= n,
            deltas@.map_values(|d: DriveDelta| d@) == deltas_of(
                items@.map_values(|it: DriveItem| it@).take(i as int),
            ),
        decreases n - i,
    {
        let ghost iv = items@.map_values(|it: DriveItem| it@);
        let ghost before = deltas@.map_values(|d: DriveDelta| d@);
        match delta_of(&items[i]) {
            Some(d) => {
                deltas.push(d);
            },
            None => {},
        }
        proof {
            let j = i as int;
            assert(iv.take(j + 1) =~= iv.take(j) + seq![iv[j]]);
            lemma_deltas_of_concat(iv.take(j), seq![iv[j]]);
            assert(seq![iv[j]].drop_first() =~= Seq::<DriveItemV>::empty());
            assert(deltas_of(Seq::<DriveItemV>::empty()) =~= Seq::<DeltaV>::empty());
            assert(seq![iv[j]][0] == iv[j]);
            assert(deltas_of(seq![iv[j]]) =~= (match delta_of_item(iv[j]) {
                Some(d) => seq![d],
                None => Seq::<DeltaV>::empty(),
            }));
            assert(deltas@.map_values(|d: DriveDelta| d@) =~= deltas_of(iv.take(j + 1)));
        }
        i = i + 1;
    }
    proof {
        let iv = items@.map_values(|it: DriveItem| it@);
        assert(iv.take(n as int) =~= iv);
    }
    deltas
}

} // verus!
