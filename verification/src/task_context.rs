//! What a task needs to know of where it runs.
use vstd::prelude::*;
use std::sync::Arc;
use crate::text::{chars_of, owned, same_text};

verus! {

/// The setting that holds the number of rows per batch of a CSV scan.
pub open spec fn csv_batch_size_key() -> Seq<char> {
    "rquery.csv.batchSize"@
}

/// The number of rows per batch of a CSV scan where no setting says otherwise.
pub const DEFAULT_CSV_BATCH_SIZE: usize = 1024;

/// Settings by their keys.
#[derive(Debug)]
pub struct SessionConfig {
    pub settings: Vec<(String, String)>,
}

/// The value of the last entry with the given key.
pub open spec fn lookup(settings: Seq<(Seq<char>, Seq<char>)>, key: Seq<char>) -> Option<Seq<char>>
    decreases settings.len(),
{
    if settings.len() == 0 {
        None
    } else if settings.last().0 == key {
        Some(settings.last().1)
    } else {
        lookup(settings.drop_last(), key)
    }
}

/// No key occurs twice.
pub open spec fn keys_distinct(settings: Seq<(Seq<char>, Seq<char>)>) -> bool {
    forall|i: int, j: int|
        0 <= i < j < settings.len() ==> (#[trigger] settings[i]).0 != (#[trigger] settings[j]).0
}

/// Replacing the last entry of a key changes the value of that key alone.
proof fn lookup_after_update(
    settings: Seq<(Seq<char>, Seq<char>)>,
    i: int,
    key: Seq<char>,
    value: Seq<char>,
    asked: Seq<char>,
)
    requires
        0 <= i < settings.len(),
        settings[i].0 == key,
        forall|j: int| i < j < settings.len() ==> (#[trigger] settings[j]).0 != key,
    ensures
        lookup(settings.update(i, (key, value)), asked) == if asked == key {
            Some(value)
        } else {
            lookup(settings, asked)
        },
    decreases settings.len(),
{
    let updated = settings.update(i, (key, value));
    if i < settings.len() - 1 {
        let shorter = settings.drop_last();
        assert forall|j: int| i < j < shorter.len() implies (#[trigger] shorter[j]).0 != key by {
            assert(settings[j].0 != key);
        }
        lookup_after_update(shorter, i, key, value, asked);
        assert(updated.drop_last() == shorter.update(i, (key, value)));
        assert(settings[settings.len() - 1].0 != key);
    } else {
        assert(updated.drop_last() == settings.drop_last());
    }
}

impl View for SessionConfig {
    type V = Seq<(Seq<char>, Seq<char>)>;

    open spec fn view(&self) -> Seq<(Seq<char>, Seq<char>)> {
        Seq::new(self.settings@.len(), |i: int| (self.settings@[i].0@, self.settings@[i].1@))
    }
}

/// Whether every character is a decimal digit.
pub open spec fn all_digits(text: Seq<char>) -> bool {
    forall|i: int| 0 <= i < text.len() ==> '0' <= #[trigger] text[i] <= '9'
}

/// The number that decimal digits write.
pub open spec fn digits_value(text: Seq<char>) -> nat
    decreases text.len(),
{
    if text.len() == 0 {
        0
    } else {
        digits_value(text.drop_last()) * 10 + (text.last() as int - '0' as int) as nat
    }
}

/// The number that a text writes: decimal digits, after a plus sign or none,
/// that fit the type.
pub open spec fn parsed(text: Seq<char>) -> Option<nat> {
    let digits = if text.len() > 1 && text[0] == '+' {
        text.drop_first()
    } else {
        text
    };
    if digits.len() > 0 && all_digits(digits) && digits_value(digits) <= usize::MAX {
        Some(digits_value(digits))
    } else {
        None
    }
}

/// A longer number is no smaller than its leading digits.
proof fn leading_digits_no_larger(text: Seq<char>, n: int)
    requires
        0 <= n <= text.len(),
        all_digits(text),
    ensures
        digits_value(text.take(n)) <= digits_value(text),
    decreases text.len(),
{
    if n == text.len() {
        assert(text.take(n) == text);
    } else {
        let shorter = text.drop_last();
        assert(all_digits(shorter));
        leading_digits_no_larger(shorter, n);
        assert(shorter.take(n) == text.take(n));
    }
}

/// The value of a digit.
fn digit_value(c: char) -> (r: usize)
    requires
        '0' <= c <= '9',
    ensures
        r == c as int - '0' as int,
        r < 10,
{
    let n: u32 = c as u32;
    (n - 48) as usize
}

/// The number that a text writes.
pub fn parse_usize(text: &str) -> (r: Option<usize>)
    ensures
        match r {
            Some(n) => parsed(text@) == Some(n as nat),
            None => parsed(text@) is None,
        },
{
    let chars: Vec<char> = chars_of(text);
    let start: usize = if chars.len() > 1 && chars[0] == '+' {
        1
    } else {
        0
    };
    let ghost digits = chars@.skip(start as int);
    assert(start == 1 ==> digits == text@.drop_first());
    assert(start == 0 ==> digits == text@);
    if chars.len() == 0 {
        return None;
    }
    let mut value: usize = 0;
    let mut i: usize = start;
    assert(digits.take(0) == Seq::<char>::empty());
    while i < chars.len()
        invariant
            chars@ == text@,
            start <= i <= chars.len(),
            digits == chars@.skip(start as int),
            start == 0 || start == 1,
            start == 1 <==> text@.len() > 1 && text@[0] == '+',
            digits == if start == 1 {
                text@.drop_first()
            } else {
                text@
            },
            all_digits(digits.take(i - start)),
            value == digits_value(digits.take(i - start)),
        decreases chars.len() - i,
    {
        let c: char = chars[i];
        assert(digits[i - start] == c);
        if c < '0' || c > '9' {
            return None;
        }
        let d: usize = digit_value(c);
        let ghost longer = digits.take(i - start + 1);
        assert(longer.drop_last() == digits.take(i - start));
        assert(longer.last() == c);
        assert forall|k: int| 0 <= k < longer.len() implies '0' <= #[trigger] longer[k] <= '9' by {
            if k < longer.len() - 1 {
                assert(longer[k] == digits.take(i - start)[k]);
            }
        }
        assert(digits_value(longer) == value * 10 + d);
        if value > (usize::MAX - d) / 10 {
            proof {
                assert(value * 10 + d > usize::MAX);
                if all_digits(digits) {
                    leading_digits_no_larger(digits, i - start + 1);
                }
            }
            return None;
        }
        value = value * 10 + d;
        i += 1;
    }
    assert(digits.take(i - start) == digits);
    Some(value)
}

impl SessionConfig {
    /// No settings.
    pub fn new() -> (r: Self)
        ensures
            r@ == Seq::<(Seq<char>, Seq<char>)>::empty(),
    {
        let r = SessionConfig { settings: Vec::new() };
        assert(r@ == Seq::<(Seq<char>, Seq<char>)>::empty());
        r
    }

    /// The value of a setting.
    pub fn get(&self, key: &str) -> (r: Option<&String>)
        ensures
            match r {
                Some(value) => lookup(self@, key@) == Some(value@),
                None => lookup(self@, key@) is None,
            },
    {
        let wanted: String = owned(key);
        let mut n: usize = self.settings.len();
        assert(self@.take(n as int) == self@);
        while n > 0
            invariant
                wanted@ == key@,
                n <= self@.len(),
                self@.len() == self.settings@.len(),
                lookup(self@, key@) == lookup(self@.take(n as int), key@),
            decreases n,
        {
            let i: usize = n - 1;
            assert(self@.take(n as int).drop_last() == self@.take(i as int));
            assert(self@.take(n as int).last() == self@[i as int]);
            if same_text(&self.settings[i].0, &wanted) {
                return Some(&self.settings[i].1);
            }
            n = i;
        }
        assert(self@.take(0).len() == 0);
        None
    }

    /// The number of rows per batch of a CSV scan: the setting, or the default
    /// where there is none that is a number.
    pub fn csv_batch_size(&self) -> (r: usize)
        ensures
            r == match lookup(self@, csv_batch_size_key()) {
                Some(value) => match parsed(value) {
                    Some(n) => n as int,
                    None => DEFAULT_CSV_BATCH_SIZE as int,
                },
                None => DEFAULT_CSV_BATCH_SIZE as int,
            },
    {
        match self.get("rquery.csv.batchSize") {
            Some(value) => match parse_usize(value.as_str()) {
                Some(n) => n,
                None => DEFAULT_CSV_BATCH_SIZE,
            },
            None => DEFAULT_CSV_BATCH_SIZE,
        }
    }

    /// The same settings with one set, in place of what it was.
    pub fn with_setting(self, key: &str, value: &str) -> (r: Self)
        ensures
            lookup(r@, key@) == Some(value@),
            forall|other: Seq<char>|
                other != key@ ==> #[trigger] lookup(r@, other) == lookup(self@, other),
            keys_distinct(self@) ==> keys_distinct(r@),
    {
        let ghost before = self@;
        let wanted: String = owned(key);
        let mut settings = self.settings;
        let mut n: usize = settings.len();
        while n > 0
            invariant
                wanted@ == key@,
                settings == self.settings,
                before == self@,
                n <= settings@.len(),
                forall|j: int| n <= j < settings@.len() ==> (#[trigger] before[j]).0 != key@,
            decreases n,
        {
            let i: usize = n - 1;
            if same_text(&settings[i].0, &wanted) {
                settings[i] = (owned(key), owned(value));
                let r = SessionConfig { settings };
                proof {
                    assert(before[i as int].0 == key@);
                    assert(r@ == before.update(i as int, (key@, value@)));
                    assert forall|other: Seq<char>| other != key@ implies #[trigger] lookup(
                        r@,
                        other,
                    ) == lookup(before, other) by {
                        lookup_after_update(before, i as int, key@, value@, other);
                    }
                    lookup_after_update(before, i as int, key@, value@, key@);
                }
                return r;
            }
            assert(before[i as int].0 != key@);
            n = i;
        }
        settings.push((wanted, owned(value)));
        let r = SessionConfig { settings };
        assert(r@ == before.push((key@, value@)));
        assert(r@.drop_last() == before);
        r
    }
}

impl Default for SessionConfig {
    fn default() -> (r: Self)
        ensures
            r@ == Seq::<(Seq<char>, Seq<char>)>::empty(),
    {
        SessionConfig::new()
    }
}

/// Where shuffle files are kept.
#[derive(Debug)]
pub struct ShuffleManager {
    pub base_dir: String,
}

impl ShuffleManager {
    /// Keeps shuffle files under `base_dir`.
    pub fn new(base_dir: &str) -> (r: Self)
        ensures
            r.base_dir@ == base_dir@,
    {
        ShuffleManager { base_dir: owned(base_dir) }
    }
}

impl Default for ShuffleManager {
    fn default() -> (r: Self)
        ensures
            r.base_dir@ == "/tmp/rquery-shuffle"@,
    {
        ShuffleManager::new("/tmp/rquery-shuffle")
    }
}

/// What tasks of one process share.
#[derive(Debug)]
pub struct RuntimeEnv {
    pub shuffle_manager: Arc<ShuffleManager>,
}

impl RuntimeEnv {
    /// An environment with the given shuffle manager.
    pub fn new(shuffle_manager: Arc<ShuffleManager>) -> (r: Self)
        ensures
            r.shuffle_manager == shuffle_manager,
    {
        RuntimeEnv { shuffle_manager }
    }

    /// An environment that keeps shuffle files in the default place.
    pub fn default_local() -> (r: Self)
        ensures
            r.shuffle_manager.base_dir@ == "/tmp/rquery-shuffle"@,
    {
        let manager: ShuffleManager = ShuffleManager::default();
        Self::new(Arc::new(manager))
    }
}

/// What a task needs to know of where it runs.
#[derive(Debug)]
pub struct TaskContext {
    pub executor_id: String,
    pub session_config: SessionConfig,
    pub runtime: Arc<RuntimeEnv>,
}

impl TaskContext {
    /// A context of the given parts.
    pub fn new(executor_id: &str, session_config: SessionConfig, runtime: Arc<RuntimeEnv>) -> (r:
        Self)
        ensures
            r.executor_id@ == executor_id@,
            r.session_config == session_config,
            r.runtime == runtime,
    {
        TaskContext { executor_id: owned(executor_id), session_config, runtime }
    }

    /// A context for trying things out.
    pub fn default_test() -> (r: Self)
        ensures
            r.executor_id@ == "test"@,
            r.session_config@ == Seq::<(Seq<char>, Seq<char>)>::empty(),
            r.runtime.shuffle_manager.base_dir@ == "/tmp/rquery-shuffle"@,
    {
        Self::new("test", SessionConfig::new(), Arc::new(RuntimeEnv::default_local()))
    }
}

} // verus!
