//! The shared stores of a server: boards by name, device configurations,
//! variables, the variable cache and the image index.
use vstd::prelude::*;
use crate::boards::BoardDefinition;
use crate::device::{copy_of, DeviceConfig};
use crate::session::board_fits;
use crate::variables::TimeData;
use crate::images::{flatten, flatten_trees, image_key_of, FileTree, ImageIndex};
use crate::resolve::VariableCache;
use crate::text::{chars_of, push_decimal, decimal, string_of};
use crate::variables::BoardVariable;

verus! {

/// The boards of a list, by name; of two boards with one name the later wins.
pub open spec fn board_map(s: Seq<BoardDefinition>) -> Map<Seq<char>, BoardDefinition>
    decreases s.len(),
{
    if s.len() == 0 {
        Map::empty()
    } else {
        board_map(s.drop_last()).insert(s.last().name@, s.last())
    }
}

/// Index of the first entry named `name`.
pub open spec fn first_named<T>(s: Seq<(String, T)>, name: Seq<char>) -> Option<int> {
    if exists|i: int| 0 <= i < s.len() && (#[trigger] s[i]).0@ == name {
        Some(choose|i: int| 0 <= i < s.len() && (#[trigger] s[i]).0@ == name && forall|k: int| 0 <= k < i ==> (#[trigger] s[k]).0@ != name)
    } else {
        None
    }
}

proof fn lemma_first_named<T>(s: Seq<(String, T)>, name: Seq<char>, found: Option<usize>)
    requires
        match found {
            Some(i) => i < s.len() && s[i as int].0@ == name && forall|k: int| 0 <= k < i ==> (#[trigger] s[k]).0@ != name,
            None => forall|i: int| 0 <= i < s.len() ==> (#[trigger] s[i]).0@ != name,
        },
    ensures
        match found {
            Some(i) => first_named(s, name) == Some(i as int),
            None => first_named(s, name) is None,
        },
{
    if let Some(i) = found {
        assert(0 <= i < s.len() && s[i as int].0@ == name);
        let c = choose|c: int| 0 <= c < s.len() && (#[trigger] s[c]).0@ == name && forall|k: int| 0 <= k < c ==> (#[trigger] s[k]).0@ != name;
        if c < i {
            assert(s[c].0@ != name);
        } else if c > i {
            assert(s[i as int].0@ != name);
        }
    }
}

/// Why a board operation failed.
#[derive(Clone, Copy, PartialEq, Eq, Structural, Debug)]
pub enum ConfigError {
    /// No board has the given name.
    NoSuchBoard,
}

/// The configuration a server runs on.
#[derive(Debug)]
pub struct Config {
    pub device_configs: Vec<(String, DeviceConfig)>,
    pub board_variables: Vec<(String, BoardVariable)>,
    /// Boards in the order they were added; of two with one name the later counts.
    pub boards: Vec<BoardDefinition>,
}

proof fn lemma_board_map_without(s: Seq<BoardDefinition>, kept: Seq<BoardDefinition>, name: Seq<char>, i: int)
    requires
        0 <= i <= s.len(),
        board_map(kept) == board_map(s.subrange(0, i)).remove(name),
        forall|j: int| 0 <= j < kept.len() ==> (#[trigger] kept[j]).name@ != name,
    ensures
        i < s.len() && s[i].name@ != name ==> board_map(kept.push(s[i])) == board_map(s.subrange(0, i + 1)).remove(name),
        i < s.len() && s[i].name@ == name ==> board_map(kept) == board_map(s.subrange(0, i + 1)).remove(name),
{
    if i < s.len() {
        let pre = s.subrange(0, i + 1);
        assert(pre.drop_last() =~= s.subrange(0, i));
        assert(pre.last() == s[i]);
        assert(kept.push(s[i]).drop_last() =~= kept);
        if s[i].name@ != name {
            assert(board_map(kept.push(s[i])) =~= board_map(s.subrange(0, i + 1)).remove(name));
        } else {
            assert(board_map(kept) =~= board_map(s.subrange(0, i + 1)).remove(name));
        }
    }
}

proof fn lemma_board_map_find(s: Seq<BoardDefinition>, i: int, name: Seq<char>)
    requires
        0 <= i <= s.len(),
        forall|j: int| i <= j < s.len() ==> (#[trigger] s[j]).name@ != name,
    ensures
        board_map(s).contains_key(name) == board_map(s.subrange(0, i)).contains_key(name),
        board_map(s).contains_key(name) ==> board_map(s)[name] == board_map(s.subrange(0, i))[name],
    decreases s.len() - i,
{
    if i < s.len() {
        let t = s.drop_last();
        assert(forall|j: int| i <= j < t.len() ==> t[j] == s[j]);
        lemma_board_map_find(t, i, name);
        assert(t.subrange(0, i) =~= s.subrange(0, i));
        assert(s.last() == s[s.len() - 1]);
    } else {
        assert(s.subrange(0, i) =~= s);
    }
}

impl Config {
    /// A configuration with the given stores and no boards.
    pub fn new(device_configs: Vec<(String, DeviceConfig)>, board_variables: Vec<(String, BoardVariable)>) -> (r: Config)
        ensures
            r.device_configs == device_configs,
            r.board_variables == board_variables,
            r.boards_view() == Map::<Seq<char>, BoardDefinition>::empty(),
    {
        Config { device_configs, board_variables, boards: Vec::new() }
    }

    /// The configuration a server starts from: the clock variables `weekday`,
    /// `time` and `date`, the `default` device, and the `clock` board.
    pub fn with_defaults() -> (r: Config)
        ensures
            r.device_configs@.len() == 1,
            r.device_configs@[0].0@ == "default"@,
            r.device_configs@[0].1.name@ == "Default"@,
            r.board_variables@.len() == 3,
            r.board_variables@[0].0@ == "weekday"@ && r.board_variables@[0].1 == BoardVariable::Time(TimeData::Weekday(0, None)),
            r.board_variables@[1].0@ == "time"@ && r.board_variables@[1].1 == BoardVariable::Time(TimeData::Time),
            r.board_variables@[2].0@ == "date"@ && r.board_variables@[2].1 == BoardVariable::Time(TimeData::Date),
            r.boards_view().contains_key("clock"@),
    {
        let mut variables: Vec<(String, BoardVariable)> = Vec::new();
        variables.push(("weekday".to_owned(), BoardVariable::Time(TimeData::Weekday(0, None))));
        variables.push(("time".to_owned(), BoardVariable::Time(TimeData::Time)));
        variables.push(("date".to_owned(), BoardVariable::Time(TimeData::Date)));
        let mut device = DeviceConfig::default();
        device.name = "Default".to_owned();
        let mut devices: Vec<(String, DeviceConfig)> = Vec::new();
        devices.push(("default".to_owned(), device));
        let mut config = Config::new(devices, variables);
        config.add_board(BoardDefinition::default());
        config
    }

    /// Index of the device configuration named `name`.
    pub fn device_index(&self, name: &str) -> (r: Option<usize>)
        ensures
            match r {
                Some(i) => i < self.device_configs@.len() && self.device_configs@[i as int].0@ == name@
                    && forall|k: int| 0 <= k < i ==> (#[trigger] self.device_configs@[k]).0@ != name@,
                None => forall|i: int| 0 <= i < self.device_configs@.len() ==> (#[trigger] self.device_configs@[i]).0@ != name@,
            },
    {
        let n = name.to_owned();
        let mut i: usize = 0;
        while i < self.device_configs.len()
            invariant
                i <= self.device_configs@.len(),
                n@ == name@,
                forall|k: int| 0 <= k < i ==> (#[trigger] self.device_configs@[k]).0@ != name@,
            decreases self.device_configs@.len() - i,
        {
            if self.device_configs[i].0 == n {
                return Some(i);
            }
            i = i + 1;
        }
        None
    }

    /// The index of the device configuration for `ip`. Where there is none, a
    /// copy of the first `default` record is pushed under the name `ip` (every
    /// other record stays as it was); `None`, with nothing changed, where
    /// neither exists.
    pub fn device_for(&mut self, ip: &str) -> (r: Option<usize>)
        ensures
            final(self).board_variables == old(self).board_variables,
            final(self).boards == old(self).boards,
            match first_named(old(self).device_configs@, ip@) {
                Some(i) => r == Some(i as usize) && final(self).device_configs == old(self).device_configs,
                None => match first_named(old(self).device_configs@, "default"@) {
                    Some(d) => {
                        let n = old(self).device_configs@.len();
                        &&& r == Some(n as usize)
                        &&& final(self).device_configs@.len() == n + 1
                        &&& final(self).device_configs@.drop_last() == old(self).device_configs@
                        &&& final(self).device_configs@[n as int].0@ == ip@
                        &&& copy_of(final(self).device_configs@[n as int].1, old(self).device_configs@[d].1)
                    },
                    None => r is None && final(self).device_configs == old(self).device_configs,
                },
            },
    {
        let found = self.device_index(ip);
        proof {
            lemma_first_named(self.device_configs@, ip@, found);
        }
        match found {
            Some(i) => Some(i),
            None => {
                let default = self.device_index("default");
                proof {
                    lemma_first_named(self.device_configs@, "default"@, default);
                }
                match default {
                    Some(d) => {
                        let copy = self.device_configs[d].1.duplicate();
                        let ghost before = self.device_configs@;
                        self.device_configs.push((ip.to_owned(), copy));
                        assert(self.device_configs@.drop_last() =~= before);
                        Some(self.device_configs.len() - 1)
                    },
                    None => None,
                }
            },
        }
    }

    /// The board named `name`, where it exists and fits a device of size
    /// `device_size`.
    pub fn viable_board(&self, name: &str, device_size: (u8, u8)) -> (r: Option<&BoardDefinition>)
        ensures
            match r {
                Some(b) => self.boards_view().contains_key(name@) && self.boards_view()[name@] == *b
                    && b.size.0 <= device_size.0 && b.size.1 <= device_size.1,
                None => !self.boards_view().contains_key(name@) || {
                    let b = self.boards_view()[name@];
                    b.size.0 > device_size.0 || b.size.1 > device_size.1
                },
            },
    {
        match self.find_board(name) {
            Some(b) => if board_fits(b.size, device_size) {
                Some(b)
            } else {
                None
            },
            None => None,
        }
    }

    pub open spec fn boards_view(&self) -> Map<Seq<char>, BoardDefinition> {
        board_map(self.boards@)
    }

    /// The boards, in the order they were added.
    pub fn get_boards(&self) -> (r: &Vec<BoardDefinition>)
        ensures
            board_map(r@) == self.boards_view(),
    {
        &self.boards
    }

    /// The board named `name`.
    pub fn find_board(&self, name: &str) -> (r: Option<&BoardDefinition>)
        ensures
            match r {
                Some(b) => self.boards_view().contains_key(name@) && self.boards_view()[name@] == *b,
                None => !self.boards_view().contains_key(name@),
            },
    {
        let n = name.to_owned();
        let mut i: usize = self.boards.len();
        while i > 0
            invariant
                i <= self.boards@.len(),
                n@ == name@,
                forall|j: int| i <= j < self.boards@.len() ==> (#[trigger] self.boards@[j]).name@ != name@,
            decreases i,
        {
            if self.boards[i - 1].name == n {
                proof {
                    lemma_board_map_find(self.boards@, i as int, name@);
                    let pre = self.boards@.subrange(0, i as int);
                    assert(pre.drop_last() =~= self.boards@.subrange(0, i - 1));
                    assert(pre.last() == self.boards@[i - 1]);
                }
                return Some(&self.boards[i - 1]);
            }
            i = i - 1;
        }
        proof {
            lemma_board_map_find(self.boards@, 0, name@);
        }
        None
    }

    fn remove_named(&mut self, name: &String)
        ensures
            final(self).device_configs == old(self).device_configs,
            final(self).board_variables == old(self).board_variables,
            board_map(final(self).boards@) == board_map(old(self).boards@).remove(name@),
    {
        let mut kept: Vec<BoardDefinition> = Vec::new();
        let ghost s = self.boards@;
        let total = self.boards.len();
        assert(s.len() == total);
        let mut i: usize = 0;
        assert(board_map(kept@) =~= board_map(s.subrange(0, 0)).remove(name@));
        assert(self.boards@ =~= s.subrange(0, s.len() as int));
        while self.boards.len() > 0
            invariant
                i + self.boards@.len() == s.len(),
                self.boards@ == s.subrange(i as int, s.len() as int),
                board_map(kept@) == board_map(s.subrange(0, i as int)).remove(name@),
                forall|j: int| 0 <= j < kept@.len() ==> (#[trigger] kept@[j]).name@ != name@,
                self.device_configs == old(self).device_configs,
                self.board_variables == old(self).board_variables,
                s.len() <= usize::MAX,
            decreases self.boards@.len(),
        {
            let b = self.boards.remove(0);
            assert(b == s[i as int]);
            proof {
                lemma_board_map_without(s, kept@, name@, i as int);
            }
            if b.name != *name {
                kept.push(b);
            }
            i = i + 1;
            assert(self.boards@ =~= s.subrange(i as int, s.len() as int));
        }
        assert(s.subrange(0, s.len() as int) =~= s);
        self.boards = kept;
    }

    /// Adds `board` under its name, replacing a board of that name.
    pub fn add_board(&mut self, board: BoardDefinition)
        ensures
            final(self).boards_view() == old(self).boards_view().insert(board.name@, board),
            final(self).device_configs == old(self).device_configs,
            final(self).board_variables == old(self).board_variables,
    {
        let name = board.name.clone();
        self.remove_named(&name);
        let ghost mid = self.boards@;
        self.boards.push(board);
        assert(self.boards@.drop_last() =~= mid);
        assert(board_map(self.boards@) =~= old(self).boards_view().insert(board.name@, board));
    }

    /// Removes the board named `board_name`; an error where there is none.
    pub fn remove_board(&mut self, board_name: String) -> (r: Result<(), ConfigError>)
        ensures
            old(self).boards_view().contains_key(board_name@) ==> r is Ok && final(self).boards_view()
                == old(self).boards_view().remove(board_name@),
            !old(self).boards_view().contains_key(board_name@) ==> r == Err::<(), ConfigError>(ConfigError::NoSuchBoard)
                && final(self).boards_view() == old(self).boards_view(),
            final(self).device_configs == old(self).device_configs,
            final(self).board_variables == old(self).board_variables,
    {
        if self.find_board(board_name.as_str()).is_some() {
            self.remove_named(&board_name);
            Ok(())
        } else {
            Err(ConfigError::NoSuchBoard)
        }
    }

    /// Replaces the boards by `boards`: boards missing from it are removed, the
    /// others take its versions.
    pub fn update_boards(&mut self, boards: Vec<BoardDefinition>)
        ensures
            final(self).boards_view() == board_map(boards@),
            final(self).device_configs == old(self).device_configs,
            final(self).board_variables == old(self).board_variables,
    {
        self.boards = boards;
    }
}

/// The state a server shares between connections: fetched variable bodies and
/// the image index.
#[derive(Debug)]
pub struct State {
    pub board_variable_values: VariableCache,
    pub image_hashes: ImageIndex,
}

impl State {
    pub fn new() -> (r: State)
        ensures
            r.board_variable_values.entries@ == Map::<u32, crate::resolve::CacheEntry>::empty(),
            r.image_hashes.entries@.len() == 0,
    {
        State { board_variable_values: VariableCache::new(), image_hashes: ImageIndex::new() }
    }

    /// Whether the image index must be rebuilt: when asked to, or while empty.
    pub fn needs_rehash(&self, force_rehash: bool) -> (r: bool)
        ensures
            r == (force_rehash || self.image_hashes.entries@.len() == 0),
    {
        force_rehash || self.image_hashes.is_empty()
    }

    /// Rebuilds the image index from a fresh walk of the image tree.
    pub fn rehash(&mut self, files: &Vec<FileTree>)
        ensures
            final(self).board_variable_values == old(self).board_variable_values,
            final(self).image_hashes.entries@.len() == flatten_trees(files@).len(),
            forall|i: int| 0 <= i < flatten_trees(files@).len() ==> (#[trigger] final(self).image_hashes.entries@[i]).0@
                == image_key_of(flatten_trees(files@)[i]) && final(self).image_hashes.entries@[i].0@.len() == 5
                && final(self).image_hashes.entries@[i].1@ == flatten_trees(files@)[i],
    {
        let paths = flatten(files);
        self.image_hashes = ImageIndex::build(&paths);
    }
}

/// At most the first `length` characters of `text`.
pub fn truncate_string(text: String, length: usize) -> (r: String)
    ensures
        r@ == if text@.len() > length {
            text@.subrange(0, length as int)
        } else {
            text@
        },
{
    let cs = chars_of(text.as_str());
    if cs.len() <= length {
        return text;
    }
    let mut v: Vec<char> = Vec::new();
    let mut i: usize = 0;
    while i < length
        invariant
            i <= length < cs@.len(),
            v@ == cs@.subrange(0, i as int),
        decreases length - i,
    {
        v.push(cs[i]);
        i = i + 1;
        assert(v@ =~= cs@.subrange(0, i as int));
    }
    string_of(&v)
}

/// A byte in decimal.
pub fn element_u8_to_string(val: u8) -> (r: String)
    ensures
        r@ == decimal(val as nat),
{
    let mut s = String::new();
    push_decimal(&mut s, val as u32);
    s
}

/// An optional byte in decimal, empty for none.
pub fn element_u8_option_to_string(val: Option<u8>) -> (r: String)
    ensures
        r@ == match val {
            Some(v) => decimal(v as nat),
            None => Seq::<char>::empty(),
        },
{
    match val {
        Some(v) => element_u8_to_string(v),
        None => String::new(),
    }
}

} // verus!
