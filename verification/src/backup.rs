//! Backup and restore: what can be backed up, the metadata a backup
//! carries, and the selection rules. Archiving and transfer are I/O and
//! happen outside; the rules here decide what is in scope.

use vstd::prelude::*;
use crate::adb::AdbClient;
use crate::text::{contains_seq, is_u64_token, digits_val, str_contains, parse_u64, tokenize,
    tokens_of};

verus! {

/// One kind of data a backup can carry.
#[derive(Clone, Copy, Debug, PartialEq, Eq, Structural)]
pub enum BackupItem {
    UserFiles,
    AppList,
    AppData,
    SystemSettings,
}

/// The display name of an item.
pub open spec fn item_name(it: BackupItem) -> Seq<char> {
    match it {
        BackupItem::UserFiles => "用户文件 (/sdcard/)"@,
        BackupItem::AppList => "已安装应用列表"@,
        BackupItem::AppData => "应用数据 (需Root或授权)"@,
        BackupItem::SystemSettings => "系统设置数据库 (需Root)"@,
    }
}

impl BackupItem {
    /// The name shown to the user.
    pub fn name(&self) -> (r: &str)
        ensures
            r@ == item_name(*self),
    {
        match self {
            BackupItem::UserFiles => "用户文件 (/sdcard/)",
            BackupItem::AppList => "已安装应用列表",
            BackupItem::AppData => "应用数据 (需Root或授权)",
            BackupItem::SystemSettings => "系统设置数据库 (需Root)",
        }
    }

    /// Whether the item can only be backed up with root access.
    pub fn requires_root(&self) -> (r: bool)
        ensures
            r == (*self == BackupItem::SystemSettings),
    {
        matches!(self, BackupItem::SystemSettings)
    }

    /// Every backup item, in menu order.
    pub fn all_items() -> (r: Vec<BackupItem>)
        ensures
            r@ == seq![
                BackupItem::UserFiles,
                BackupItem::AppList,
                BackupItem::AppData,
                BackupItem::SystemSettings,
            ],
    {
        let mut v: Vec<BackupItem> = Vec::new();
        v.push(BackupItem::UserFiles);
        v.push(BackupItem::AppList);
        v.push(BackupItem::AppData);
        v.push(BackupItem::SystemSettings);
        proof {
            assert(v@ =~= seq![
                BackupItem::UserFiles,
                BackupItem::AppList,
                BackupItem::AppData,
                BackupItem::SystemSettings,
            ]);
        }
        v
    }
}

/// What a backup archive records about itself.
#[derive(Debug)]
pub struct BackupMetadata {
    pub version: String,
    pub device_serial: String,
    pub device_model: String,
    pub android_version: String,
    pub backup_time: String,
    pub items: Vec<BackupItem>,
    pub has_root: bool,
}

/// How much of a backup a restore applies.
#[derive(Clone, Debug)]
pub enum RestoreMode {
    Full,
    Selective(Vec<BackupItem>),
}

/// Decides whether the device grants root.
pub struct RootChecker {
    pub client: AdbClient,
}

impl RootChecker {
    pub fn new(client: AdbClient) -> (c: RootChecker)
        ensures
            c.client == client,
    {
        RootChecker { client }
    }

    /// Whether one probe's outcome shows root access: the command
    /// succeeded and reported the root user id.
    pub fn output_indicates_root(success: bool, output: &str) -> (r: bool)
        ensures
            r == (success && contains_seq(output@, "uid=0"@)),
    {
        success && str_contains(output, "uid=0")
    }
}

/// Runs backups; the item filtering is here, the transfer is not.
pub struct BackupEngine {
    pub client: AdbClient,
}

impl BackupEngine {
    pub fn new(client: AdbClient) -> (e: BackupEngine)
        ensures
            e.client == client,
    {
        BackupEngine { client }
    }

    /// The items a backup without root keeps: everything not needing
    /// root; with root, everything.
    pub fn eligible_items(items: Vec<BackupItem>, has_root: bool) -> (r: Vec<BackupItem>)
        ensures
            r@ == items@.filter(
                |it: BackupItem| !(it == BackupItem::SystemSettings) || has_root,
            ),
    {
        let ghost input = items@;
        let mut r: Vec<BackupItem> = Vec::new();
        let mut i: usize = 0;
        proof {
            assert(input.take(0) =~= Seq::<BackupItem>::empty());
            input.take(0).lemma_all_neg_filter_empty(
                |it: BackupItem| !(it == BackupItem::SystemSettings) || has_root,
            );
            assert(r@ =~= input.take(0).filter(
                |it: BackupItem| !(it == BackupItem::SystemSettings) || has_root,
            ));
        }
        while i < items.len()
            invariant
                input == items@,
                0 <= i <= input.len(),
                r@ == input.take(i as int).filter(
                    |it: BackupItem| !(it == BackupItem::SystemSettings) || has_root,
                ),
            decreases input.len() - i,
        {
            let it = items[i];
            proof {
                assert(input.take(i + 1).drop_last() =~= input.take(i as int));
                assert(input.take(i + 1) =~= input.take(i as int).push(input[i as int]));
                input.take(i as int).lemma_filter_push(
                    input[i as int],
                    |it: BackupItem| !(it == BackupItem::SystemSettings) || has_root,
                );
            }
            if !it.requires_root() || has_root {
                r.push(it);
            }
            i = i + 1;
        }
        proof {
            assert(input.take(input.len() as int) =~= input);
        }
        r
    }
}

/// Restores backups; reading the archive is I/O and happens outside.
pub struct RestoreEngine {
    pub client: AdbClient,
}

impl RestoreEngine {
    pub fn new(client: AdbClient) -> (e: RestoreEngine)
        ensures
            e.client == client,
    {
        RestoreEngine { client }
    }
}

/// Drives the backup menu: holds both engines.
pub struct BackupRunner {
    pub bak_eng: BackupEngine,
    pub rst_eng: RestoreEngine,
}

impl BackupRunner {
    pub fn new(c: AdbClient) -> (r: BackupRunner)
        ensures
            r.bak_eng.client == c,
            r.rst_eng.client == c,
    {
        let bak_eng = BackupEngine::new(c.clone());
        let rst_eng = RestoreEngine::new(c);
        BackupRunner { bak_eng, rst_eng }
    }
}

/// The zero-based item indexes a selection line picks: each token read as
/// a number, kept when it falls in `1..=max`, shifted down by one.
pub open spec fn selection_from(toks: Seq<Seq<char>>, max: nat) -> Seq<usize>
    decreases toks.len(),
{
    if toks.len() == 0 {
        Seq::empty()
    } else {
        let prev = selection_from(toks.drop_last(), max);
        let t = toks.last();
        if is_u64_token(t) && 0 < digits_val(t) <= max {
            prev.push((digits_val(t) - 1) as usize)
        } else {
            prev
        }
    }
}

/// Reads the one-based item numbers the user typed, keeping those in
/// range and shifting them to zero-based indexes.
pub fn parse_selection(input: &str, max: usize) -> (r: Vec<usize>)
    ensures
        r@ == selection_from(tokens_of(input@), max as nat),
{
    let toks = tokenize(input);
    let ghost tv = toks.deep_view();
    let mut r: Vec<usize> = Vec::new();
    let mut i: usize = 0;
    proof {
        assert(tv.take(0) =~= Seq::<Seq<char>>::empty());
    }
    while i < toks.len()
        invariant
            tv == toks.deep_view(),
            toks@.len() == tv.len(),
            max <= usize::MAX,
            r@ == selection_from(tv.take(i as int), max as nat),
            0 <= i <= tv.len(),
        decreases tv.len() - i,
    {
        proof {
            assert(tv[i as int] == toks@[i as int]@);
            assert(tv.take(i + 1).drop_last() =~= tv.take(i as int));
            assert(tv.take(i + 1).last() == tv[i as int]);
        }
        match parse_u64(toks[i].as_str()) {
            Some(v) => {
                if 0 < v && v <= max as u64 {
                    r.push((v - 1) as usize);
                }
            },
            None => {},
        }
        i = i + 1;
    }
    proof {
        assert(tv.take(tv.len() as int) =~= tv);
    }
    r
}

} // verus!
