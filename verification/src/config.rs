//! Static configuration: the labels of the main menu, keyed by the digit
//! the user types.

use vstd::prelude::*;
use crate::text::str_eq;

verus! {

/// Menu labels keyed by their one-character menu index.
pub struct Config {
    pub menu_labels: Vec<(String, String)>,
}

/// The labels as character sequences, in order.
pub open spec fn labels_view(c: &Config) -> Seq<(Seq<char>, Seq<char>)> {
    Seq::new(c.menu_labels@.len(), |i: int| (c.menu_labels@[i].0@, c.menu_labels@[i].1@))
}

/// The value of the first entry with the given key, or the fallback.
pub open spec fn label_for(
    entries: Seq<(Seq<char>, Seq<char>)>,
    key: Seq<char>,
    fallback: Seq<char>,
) -> Seq<char>
    decreases entries.len(),
{
    if entries.len() == 0 {
        fallback
    } else if entries[0].0 == key {
        entries[0].1
    } else {
        label_for(entries.drop_first(), key, fallback)
    }
}

/// The built-in label table.
pub open spec fn default_labels() -> Seq<(Seq<char>, Seq<char>)> {
    seq![
        ("0"@, "检测是否存在 Root 环境"@),
        ("1"@, "查看引导/BL 锁状态"@),
        ("2"@, "手机备份及恢复"@),
        ("3"@, "ADB 稳定性/压力测试"@),
        ("4"@, "系统与硬件安全检查"@),
        ("5"@, "敬请期待..."@),
        ("6"@, "敬请期待..."@),
        ("7"@, "敬请期待..."@),
        ("8"@, "敬请期待..."@),
        ("9"@, "敬请期待..."@),
    ]
}

impl Config {
    /// Loads the configuration; today that is the built-in table.
    pub fn load() -> (c: Config)
        ensures
            labels_view(&c) == default_labels(),
    {
        let mut labels: Vec<(String, String)> = Vec::new();
        labels.push((String::from_str("0"), String::from_str("检测是否存在 Root 环境")));
        labels.push((String::from_str("1"), String::from_str("查看引导/BL 锁状态")));
        labels.push((String::from_str("2"), String::from_str("手机备份及恢复")));
        labels.push((String::from_str("3"), String::from_str("ADB 稳定性/压力测试")));
        labels.push((String::from_str("4"), String::from_str("系统与硬件安全检查")));
        labels.push((String::from_str("5"), String::from_str("敬请期待...")));
        labels.push((String::from_str("6"), String::from_str("敬请期待...")));
        labels.push((String::from_str("7"), String::from_str("敬请期待...")));
        labels.push((String::from_str("8"), String::from_str("敬请期待...")));
        labels.push((String::from_str("9"), String::from_str("敬请期待...")));
        let c = Config { menu_labels: labels };
        proof {
            assert(labels_view(&c) =~= default_labels());
        }
        c
    }

    /// The label stored under `key`, or `fallback` when none is.
    pub fn get_label(&self, key: &str, fallback: &str) -> (r: String)
        ensures
            r@ == label_for(labels_view(self), key@, fallback@),
    {
        let ghost entries = labels_view(self);
        let mut i: usize = 0;
        proof {
            assert(entries.skip(0) =~= entries);
        }
        while i < self.menu_labels.len()
            invariant
                entries == labels_view(self),
                self.menu_labels@.len() == entries.len(),
                0 <= i <= entries.len(),
                label_for(entries, key@, fallback@) == label_for(
                    entries.skip(i as int),
                    key@,
                    fallback@,
                ),
            decreases entries.len() - i,
        {
            proof {
                assert(entries.skip(i as int)[0] == entries[i as int]);
                assert(entries.skip(i as int).drop_first() =~= entries.skip(i + 1));
            }
            if str_eq(self.menu_labels[i].0.as_str(), key) {
                return self.menu_labels[i].1.clone();
            }
            i = i + 1;
        }
        proof {
            assert(entries.skip(entries.len() as int) =~= Seq::<(Seq<char>, Seq<char>)>::empty());
        }
        fallback.to_owned()
    }
}

} // verus!
