//! The dock's lasting state: pinned applications and the screen edge.

use vstd::prelude::*;
use crate::text::texts;

verus! {

/// The screen edge that the dock is on.
#[derive(Debug, Clone, Copy, PartialEq, Eq, Structural)]
pub enum DockPosition {
    Left,
    Bottom,
    Right,
}

/// The dock's lasting state.
#[derive(Debug, PartialEq, Eq)]
pub struct DockStateStore {
    pub version: u32,
    /// Pinned applications, in the order they are shown.
    pub pinned: Vec<String>,
    /// Whether to fill the dock from the available applications while nothing
    /// is pinned.
    pub autopopulate: bool,
    pub position: DockPosition,
}

/// The version of the state that this program reads and writes.
pub const CURRENT_VERSION: u32 = 1;

/// Whether a character is white space.
pub open spec fn white(c: char) -> bool {
    let code = c as u32;
    ||| 0x9 <= code <= 0xd
    ||| code == 0x20
    ||| code == 0x85
    ||| code == 0xa0
    ||| code == 0x1680
    ||| 0x2000 <= code <= 0x200a
    ||| 0x2028 <= code <= 0x2029
    ||| code == 0x202f
    ||| code == 0x205f
    ||| code == 0x3000
}

/// Whether a text is nothing but white space.
pub open spec fn blank(text: Seq<char>) -> bool {
    forall|i: int| 0 <= i < text.len() ==> white(#[trigger] text[i])
}

/// Whether a text is nothing but white space.
pub fn is_blank(text: &str) -> (answer: bool)
    ensures
        answer == blank(text@),
{
    let count: usize = text.unicode_len();
    let mut index: usize = 0;
    while index < count
        invariant
            index <= count,
            count == text@.len(),
            forall|i: int| 0 <= i < index ==> white(#[trigger] text@[i]),
        decreases count - index,
    {
        let code: u32 = text.get_char(index) as u32;
        let is_white = (0x9 <= code && code <= 0xd) || code == 0x20 || code == 0x85 || code == 0xa0
            || code == 0x1680 || (0x2000 <= code && code <= 0x200a) || (0x2028 <= code && code
            <= 0x2029) || code == 0x202f || code == 0x205f || code == 0x3000;
        if !is_white {
            assert(!white(text@[index as int]));
            return false;
        }
        index += 1;
    }
    true
}

/// A directory with a path below it.
pub open spec fn below(directory: Seq<char>, rest: Seq<char>) -> Seq<char> {
    if directory.len() > 0 && directory.last() == '/' {
        directory + rest
    } else {
        directory + "/"@ + rest
    }
}

fn join_below(directory: &str, rest: &str) -> (path: String)
    ensures
        path@ == below(directory@, rest@),
{
    let count: usize = directory.unicode_len();
    let mut path = directory.to_owned();
    if count == 0 || directory.get_char(count - 1) != '/' {
        path.append("/");
    }
    path.append(rest);
    path
}

impl Default for DockStateStore {
    fn default() -> (store: DockStateStore)
        ensures
            store.version == CURRENT_VERSION,
            store.pinned@.len() == 0,
            !store.autopopulate,
            store.position == DockPosition::Bottom,
    {
        DockStateStore {
            version: CURRENT_VERSION,
            pinned: Vec::new(),
            autopopulate: false,
            position: DockPosition::Bottom,
        }
    }
}

fn copy_texts(list: &[String]) -> (copy: Vec<String>)
    ensures
        texts(copy@) == texts(list@),
{
    let mut copy: Vec<String> = Vec::new();
    let mut index: usize = 0;
    assert(texts(copy@) =~= texts(list@.take(0)));
    while index < list.len()
        invariant
            index <= list.len(),
            texts(copy@) == texts(list@.take(index as int)),
        decreases list.len() - index,
    {
        let ghost before = copy@;
        copy.push(list[index].clone());
        assert(texts(copy@) =~= texts(before).push(list@[index as int]@));
        assert(texts(list@.take(index as int + 1)) =~= texts(list@.take(index as int)).push(
            list@[index as int]@,
        ));
        index += 1;
    }
    assert(list@.take(list.len() as int) =~= list@);
    copy
}

impl DockStateStore {
    /// Where the state is kept: in the user's state directory, where one is
    /// configured, or else in the usual place below the home directory, or else in
    /// the current directory. Blank settings count as none.
    pub fn default_path(state_home: Option<&str>, home: Option<&str>) -> (path: String)
        ensures
            path@ == match state_home {
                Some(directory) if !blank(directory@) => below(
                    directory@,
                    "tessera/dock_state.json"@,
                ),
                _ => match home {
                    Some(directory) if !blank(directory@) => below(
                        directory@,
                        ".local/state/tessera/dock_state.json"@,
                    ),
                    _ => "dock_state.json"@,
                },
            },
    {
        if let Some(directory) = state_home {
            if !is_blank(directory) {
                return join_below(directory, "tessera/dock_state.json");
            }
        }
        if let Some(directory) = home {
            if !is_blank(directory) {
                return join_below(directory, ".local/state/tessera/dock_state.json");
            }
        }
        "dock_state.json".to_owned()
    }

    /// The state that was read, if there is one and this program can use it.
    pub open spec fn usable(read: Option<DockStateStore>) -> bool {
        read matches Some(store) && store.version == CURRENT_VERSION
    }

    /// Take up a state that was read. States of another version are not used.
    pub fn accept(read: Option<DockStateStore>) -> (store: Option<DockStateStore>)
        ensures
            store == if DockStateStore::usable(read) {
                read
            } else {
                None
            },
    {
        match read {
            Some(store) => if store.version == CURRENT_VERSION {
                Some(store)
            } else {
                None
            },
            None => None,
        }
    }

    /// The state to start with: the one that was read, or else a new one with
    /// the configured content. The answer says whether it is new and must be
    /// written.
    pub fn load_or_init(
        read: Option<DockStateStore>,
        seed_pinned: &[String],
        seed_autopopulate: bool,
        seed_position: DockPosition,
    ) -> (answer: (DockStateStore, bool))
        ensures
            answer.1 == !DockStateStore::usable(read),
            DockStateStore::usable(read) ==> Some(answer.0) == read,
            !DockStateStore::usable(read) ==> {
                &&& answer.0.version == CURRENT_VERSION
                &&& texts(answer.0.pinned@) == texts(seed_pinned@)
                &&& answer.0.autopopulate == seed_autopopulate
                &&& answer.0.position == seed_position
            },
            answer.0.version == CURRENT_VERSION,
    {
        if let Some(store) = DockStateStore::accept(read) {
            return (store, false);
        }
        let store = DockStateStore {
            version: CURRENT_VERSION,
            pinned: copy_texts(seed_pinned),
            autopopulate: seed_autopopulate,
            position: seed_position,
        };
        (store, true)
    }
}

/// A state that this program wrote is taken up again as it is.
pub proof fn written_state_is_read_back(store: DockStateStore)
    requires
        store.version == CURRENT_VERSION,
    ensures
        DockStateStore::usable(Some(store)),
{
}

/// A state of this version that was read is used as it is; otherwise the dock starts with
/// the configured content, which must be written.
pub proof fn docks_start_where_they_left_off(
    read: Option<DockStateStore>,
    seed: &[String],
    autopopulate: bool,
    position: DockPosition,
    store: DockStateStore,
    written: bool,
    index: int,
)
    requires
        call_ensures(
            DockStateStore::load_or_init,
            (read, seed, autopopulate, position),
            (store, written),
        ),
        0 <= index < seed@.len(),
    ensures
        read is Some && read->0.version == 1 ==> !written && Some(store) == read,
        read is None || read->0.version != 1 ==> {
            &&& written
            &&& store.version == 1
            &&& store.pinned@.len() == seed@.len()
            &&& store.pinned@[index]@ == seed@[index]@
            &&& store.autopopulate == autopopulate
            &&& store.position == position
        },
{
    if read is None || read->0.version != 1 {
        assert(texts(store.pinned@).len() == texts(seed@).len());
        assert(texts(store.pinned@)[index] == store.pinned@[index]@);
        assert(texts(seed@)[index] == seed@[index]@);
    }
}

/// A new state pins nothing and puts the dock at the bottom.
pub proof fn new_docks_are_empty(store: DockStateStore)
    requires
        call_ensures(<DockStateStore as Default>::default, (), store),
    ensures
        store.version == 1,
        store.pinned@.len() == 0,
        !store.autopopulate,
        store.position == DockPosition::Bottom,
{
}

/// The state is kept in the user's state directory, otherwise below the home directory; a
/// directory that is blank counts as none, and one slash stands between the parts.
pub proof fn states_are_kept_below_a_directory(
    state_home: Option<&str>,
    home: Option<&str>,
    path: String,
    blank_state: bool,
    blank_home: bool,
)
    requires
        state_home is Some && home is Some,
        call_ensures(is_blank, (state_home->0,), blank_state),
        call_ensures(is_blank, (home->0,), blank_home),
        call_ensures(DockStateStore::default_path, (state_home, home), path),
    ensures
        !blank_state && state_home->0@.last() != '/' ==> path@ == state_home->0@ + "/"@
            + "tessera/dock_state.json"@,
        !blank_state && state_home->0@.len() > 0 && state_home->0@.last() == '/' ==> path@
            == state_home->0@ + "tessera/dock_state.json"@,
        blank_state && !blank_home && home->0@.last() != '/' ==> path@ == home->0@ + "/"@
            + ".local/state/tessera/dock_state.json"@,
        blank_state && blank_home ==> path@ == "dock_state.json"@,
        state_home->0@.len() == 0 ==> blank_state,
        blank_state ==> !state_home->0@.contains('/'),
{
    if blank_state && state_home->0@.contains('/') {
        let i = state_home->0@.index_of('/');
        assert(white(state_home->0@[i]));
    }
}

/// A state is taken up exactly if it is of this version.
pub proof fn states_of_this_version_are_taken_up(
    read: Option<DockStateStore>,
    store: Option<DockStateStore>,
)
    requires
        call_ensures(DockStateStore::accept, (read,), store),
    ensures
        store is Some <==> read is Some && read->0.version == 1,
        store is Some ==> store == read,
{
}

} // verus!
