//! The fixed top of the virtual filesystem: the root, its directories and
//! their README files, with identifiers derived from their paths.

use vstd::prelude::*;

use crate::bindings::{uuid_v5, uuid_v5_of};
use crate::models::{DavItem, ItemSubType, ItemType};
use crate::store::{id_prefix_of, id_prefix_spec};
use crate::text::{push_str, str_chars, string_from_chars};

verus! {

/// The namespace of the name-based identifiers of the fixed items.
pub const SEED_NAMESPACE: u128 = 0x6ba7b810_9dad_11d1_80b4_00c04fd430c8;

/// Whether `r` is the directory of the fixed tree with this name, path,
/// role and parent, created at `now`.
pub open spec fn is_fixed_directory(
    r: DavItem,
    name: Seq<char>,
    path: Seq<char>,
    sub_type: ItemSubType,
    parent_id: Option<u128>,
    now: i64,
) -> bool {
    &&& r.id == uuid_v5_of(SEED_NAMESPACE, path)
    &&& r.id_prefix@ == id_prefix_spec(name)
    &&& r.created_at == now
    &&& r.parent_id == parent_id
    &&& r.name@ == name
    &&& r.file_size is None
    &&& r.item_type == ItemType::Directory
    &&& r.sub_type == sub_type
    &&& r.path@ == path
    &&& r.release_date is None
    &&& r.last_health_check is None
    &&& r.next_health_check is None
    &&& r.history_item_id is None
    &&& r.file_blob_id is None
    &&& r.nzb_blob_id is None
}

/// A directory of the fixed tree, with the id derived from its path.
pub fn root_item(name: &str, path: &str, sub_type: ItemSubType, parent_id: Option<u128>, now: i64) -> (r: DavItem)
    ensures
        is_fixed_directory(r, name@, path@, sub_type, parent_id, now),
{
    DavItem {
        id: uuid_v5(SEED_NAMESPACE, path),
        id_prefix: id_prefix_of(name),
        created_at: now,
        parent_id,
        name: name.to_owned(),
        file_size: None,
        item_type: ItemType::Directory,
        sub_type,
        path: path.to_owned(),
        release_date: None,
        last_health_check: None,
        next_health_check: None,
        history_item_id: None,
        file_blob_id: None,
        nzb_blob_id: None,
    }
}

/// The directories of the fixed tree with their roles, below the root.
pub open spec fn seed_children() -> Seq<(Seq<char>, Seq<char>, ItemSubType)> {
    seq![
        ("nzbs"@, "/nzbs/"@, ItemSubType::NzbsRoot),
        ("content"@, "/content/"@, ItemSubType::ContentRoot),
        ("completed-symlinks"@, "/completed-symlinks/"@, ItemSubType::SymlinkRoot),
        (".ids"@, "/.ids/"@, ItemSubType::IdsRoot),
    ]
}

/// Whether `r` holds the directories of the fixed tree, the root first,
/// created at `now`: each child of the root has the root as its parent.
pub open spec fn is_seed_directories(r: Seq<DavItem>, now: i64) -> bool {
    &&& r.len() == 5
    &&& is_fixed_directory(r[0], ""@, "/"@, ItemSubType::WebdavRoot, None, now)
    &&& forall|i: int|
        1 <= i < 5 ==> is_fixed_directory(
            #[trigger] r[i],
            seed_children()[i - 1].0,
            seed_children()[i - 1].1,
            seed_children()[i - 1].2,
            Some(r[0].id),
            now,
        )
}

/// The directories of the fixed tree, the root first, created at `now`:
/// each child of the root has the root as its parent.
pub fn seed_directories(now: i64) -> (r: Vec<DavItem>)
    ensures
        is_seed_directories(r@, now),
{
    let root = root_item("", "/", ItemSubType::WebdavRoot, None, now);
    let root_id = root.id;
    let mut v: Vec<DavItem> = Vec::new();
    v.push(root);
    v.push(root_item("nzbs", "/nzbs/", ItemSubType::NzbsRoot, Some(root_id), now));
    v.push(root_item("content", "/content/", ItemSubType::ContentRoot, Some(root_id), now));
    v.push(
        root_item(
            "completed-symlinks",
            "/completed-symlinks/",
            ItemSubType::SymlinkRoot,
            Some(root_id),
            now,
        ),
    );
    v.push(root_item(".ids", "/.ids/", ItemSubType::IdsRoot, Some(root_id), now));
    v
}

/// A README file of the fixed tree: where it goes, in which directory, and
/// what it says.
#[derive(Debug, Clone, Copy)]
pub struct ReadmeSeed {
    pub path: &'static str,
    pub parent_path: &'static str,
    pub content: &'static str,
}

/// The README of `/content`.
pub open spec fn content_readme() -> Seq<char> {
    "About /content\n\nThis directory contains all streamable files that have finished processing.\nFiles are organized by category and job name.\n\nFiles are served by streaming directly from Usenet on demand - no local storage is used.\nContent can be accessed via any WebDAV client or via rclone mount.\n"@
}

/// The README of `/nzbs`.
pub open spec fn nzbs_readme() -> Seq<char> {
    "About /nzbs\n\nThis directory mirrors the nzbdav queue.\n- NZBs currently in the queue can be downloaded from this directory.\n- Upload an NZB file here to add it to the processing queue.\n- Delete an NZB to remove it from the queue.\n"@
}

/// The README of `/.ids`.
pub open spec fn ids_readme() -> Seq<char> {
    "About /.ids\n\nThis directory provides ID-based file access.\nFiles can be accessed by their UUID without knowing the full path.\n"@
}

/// Whether `r` holds the README files of the fixed tree.
pub open spec fn is_readme_seeds(r: Seq<ReadmeSeed>) -> bool {
    &&& r.len() == 3
    &&& r[0].path@ == "/content/README.txt"@ && r[0].parent_path@ == "/content/"@
        && r[0].content@ == content_readme()
    &&& r[1].path@ == "/nzbs/README.txt"@ && r[1].parent_path@ == "/nzbs/"@ && r[1].content@
        == nzbs_readme()
    &&& r[2].path@ == "/.ids/README.txt"@ && r[2].parent_path@ == "/.ids/"@ && r[2].content@
        == ids_readme()
}

/// The README files of the fixed tree.
pub fn readme_seeds() -> (r: Vec<ReadmeSeed>)
    ensures
        is_readme_seeds(r@),
{
    let mut v: Vec<ReadmeSeed> = Vec::new();
    v.push(
        ReadmeSeed {
            path: "/content/README.txt",
            parent_path: "/content/",
            content: "About /content\n\nThis directory contains all streamable files that have finished processing.\nFiles are organized by category and job name.\n\nFiles are served by streaming directly from Usenet on demand - no local storage is used.\nContent can be accessed via any WebDAV client or via rclone mount.\n",
        },
    );
    v.push(
        ReadmeSeed {
            path: "/nzbs/README.txt",
            parent_path: "/nzbs/",
            content: "About /nzbs\n\nThis directory mirrors the nzbdav queue.\n- NZBs currently in the queue can be downloaded from this directory.\n- Upload an NZB file here to add it to the processing queue.\n- Delete an NZB to remove it from the queue.\n",
        },
    );
    v.push(
        ReadmeSeed {
            path: "/.ids/README.txt",
            parent_path: "/.ids/",
            content: "About /.ids\n\nThis directory provides ID-based file access.\nFiles can be accessed by their UUID without knowing the full path.\n",
        },
    );
    v
}

/// What seeding the fixed tree writes.
pub struct SeedPlan {
    /// The directories to store, the root first.
    pub directories: Vec<DavItem>,
    /// The README files to store, each under its parent directory.
    pub readmes: Vec<ReadmeSeed>,
}

/// What seeding writes at `now`: nothing where the root already exists,
/// so that seeding a second time changes nothing; else the directories of
/// the fixed tree and its README files.
pub fn seed_plan(root_exists: bool, now: i64) -> (r: SeedPlan)
    ensures
        root_exists ==> r.directories@.len() == 0 && r.readmes@.len() == 0,
        !root_exists ==> is_seed_directories(r.directories@, now) && is_readme_seeds(r.readmes@),
{
    if root_exists {
        SeedPlan { directories: Vec::new(), readmes: Vec::new() }
    } else {
        SeedPlan { directories: seed_directories(now), readmes: readme_seeds() }
    }
}

/// The README item of a seed under the directory `parent_id`, and the id of
/// the blob that holds its text: both derived from the README's path.
pub fn readme_item(seed: &ReadmeSeed, parent_id: u128, now: i64) -> (r: (DavItem, u128))
    ensures
        r.1 == uuid_v5_of(SEED_NAMESPACE, seed.path@),
        r.0.id == uuid_v5_of(SEED_NAMESPACE, "readme:"@ + seed.path@),
        r.0.id_prefix@ == "R"@,
        r.0.created_at == now,
        r.0.parent_id == Some(parent_id),
        r.0.name@ == "README.txt"@,
        r.0.file_size == Some(seed.content.len() as i64),
        r.0.item_type == ItemType::UsenetFile,
        r.0.sub_type == ItemSubType::ReadmeFile,
        r.0.path@ == seed.path@,
        r.0.release_date is None,
        r.0.last_health_check is None,
        r.0.next_health_check is None,
        r.0.history_item_id is None,
        r.0.file_blob_id is None,
        r.0.nzb_blob_id == Some(r.1),
{
    let blob_id = uuid_v5(SEED_NAMESPACE, seed.path);
    let mut key = str_chars("readme:");
    push_str(&mut key, seed.path);
    let key_s = string_from_chars(key.as_slice());
    let item = DavItem {
        id: uuid_v5(SEED_NAMESPACE, key_s.as_str()),
        id_prefix: "R".to_owned(),
        created_at: now,
        parent_id: Some(parent_id),
        name: "README.txt".to_owned(),
        file_size: Some(seed.content.len() as i64),
        item_type: ItemType::UsenetFile,
        sub_type: ItemSubType::ReadmeFile,
        path: seed.path.to_owned(),
        release_date: None,
        last_health_check: None,
        next_health_check: None,
        history_item_id: None,
        file_blob_id: None,
        nzb_blob_id: Some(blob_id),
    };
    (item, blob_id)
}

} // verus!
