//! A watch element: one declarative entry of the watch list, and its
//! fallible conversion from an already-deserialized configuration entry.

use crate::text::str_eq;
use vstd::prelude::*;

verus! {

/// Bit for attribute-change events, as the host watch table numbers them.
pub const MASK_ATTRIB: u32 = 0x0000_0004;

/// Bit for a writable file being closed.
pub const MASK_CLOSE_WRITE: u32 = 0x0000_0008;

/// Bit for a non-writable file being closed.
pub const MASK_CLOSE_NOWRITE: u32 = 0x0000_0010;

/// Bit for a file being created.
pub const MASK_CREATE: u32 = 0x0000_0100;

/// Bit for a file being deleted.
pub const MASK_DELETE: u32 = 0x0000_0200;

/// Bit for the watched directory itself being deleted.
pub const MASK_DELETE_SELF: u32 = 0x0000_0400;

/// Bit for a file being modified.
pub const MASK_MODIFY: u32 = 0x0000_0002;

/// Bit for the watched directory itself being moved.
pub const MASK_MOVE_SELF: u32 = 0x0000_0800;

/// Bit for a file being moved out of the directory.
pub const MASK_MOVED_FROM: u32 = 0x0000_0040;

/// Bit for a file being moved into the directory.
pub const MASK_MOVED_TO: u32 = 0x0000_0080;

/// Bit for a file being opened.
pub const MASK_OPEN: u32 = 0x0000_0020;

/// All event bits at once.
pub const MASK_ALL_EVENTS: u32 = 0x0000_0fff;

/// Both move bits at once.
pub const MASK_MOVE: u32 = 0x0000_00c0;

/// Option bit: do not follow a symbolic link.
pub const MASK_DONT_FOLLOW: u32 = 0x0200_0000;

/// Option bit: stop generating events for unlinked files.
pub const MASK_EXCL_UNLINK: u32 = 0x0400_0000;

/// Option bit: add to an existing watch instead of replacing it.
pub const MASK_MASK_ADD: u32 = 0x2000_0000;

/// Option bit: remove the watch after one event.
pub const MASK_ONESHOT: u32 = 0x8000_0000;

/// Option bit: watch only if the path is a directory.
pub const MASK_ONLYDIR: u32 = 0x0100_0000;

/// A configuration field that may be absent, hold the wrong kind of value,
/// or hold text.
pub enum FieldValue {
    /// The field is not present.
    Missing,
    /// The field is present but does not hold text.
    Wrong,
    /// The field holds this text.
    Text(String),
}

/// The mathematical content of a `FieldValue`.
pub enum FieldValueView {
    /// The field is not present.
    Missing,
    /// The field is present but does not hold text.
    Wrong,
    /// The field holds this text.
    Text(Seq<char>),
}

impl View for FieldValue {
    type V = FieldValueView;

    open spec fn view(&self) -> FieldValueView {
        match self {
            FieldValue::Missing => FieldValueView::Missing,
            FieldValue::Wrong => FieldValueView::Wrong,
            FieldValue::Text(s) => FieldValueView::Text(s@),
        }
    }
}

/// A configuration field that may be absent, hold the wrong kind of value,
/// or hold a list of items.
pub enum ListField {
    /// The field is not present.
    Missing,
    /// The field is present but does not hold a list.
    Wrong,
    /// The field holds these items.
    Items(Vec<FieldValue>),
}

/// The mathematical content of a `ListField`.
pub enum ListFieldView {
    /// The field is not present.
    Missing,
    /// The field is present but does not hold a list.
    Wrong,
    /// The field holds these items.
    Items(Seq<FieldValueView>),
}

impl View for ListField {
    type V = ListFieldView;

    open spec fn view(&self) -> ListFieldView {
        match self {
            ListField::Missing => ListFieldView::Missing,
            ListField::Wrong => ListFieldView::Wrong,
            ListField::Items(v) => ListFieldView::Items(v@.map_values(|f: FieldValue| f@)),
        }
    }
}

/// A configuration field that may be absent, hold the wrong kind of value,
/// or hold an integer.
pub enum IntField {
    /// The field is not present.
    Missing,
    /// The field is present but does not hold a representable integer.
    Wrong,
    /// The field holds this integer.
    Num(i64),
}

/// The mathematical content of an `IntField`.
pub enum IntFieldView {
    /// The field is not present.
    Missing,
    /// The field is present but does not hold a representable integer.
    Wrong,
    /// The field holds this integer.
    Num(int),
}

impl View for IntField {
    type V = IntFieldView;

    open spec fn view(&self) -> IntFieldView {
        match self {
            IntField::Missing => IntFieldView::Missing,
            IntField::Wrong => IntFieldView::Wrong,
            IntField::Num(v) => IntFieldView::Num(*v as int),
        }
    }
}

/// One entry of the configuration, as the host deserialized it: the shape of
/// one value of the configured array, reduced to the fields this library
/// reads.
pub struct ConfigEntry {
    /// Whether the entry is an object at all.
    pub is_object: bool,
    /// The `path` field.
    pub path: FieldValue,
    /// The `dir` field, an older name for `path`.
    pub dir: FieldValue,
    /// The `events` field.
    pub events: ListField,
    /// The `command` field.
    pub command: FieldValue,
    /// The `file_match` field.
    pub file_match: FieldValue,
    /// The `check_interval` field.
    pub check_interval: IntField,
}

/// The mathematical content of a `ConfigEntry`.
#[verifier::ext_equal]
pub struct ConfigEntryView {
    /// Whether the entry is an object at all.
    pub is_object: bool,
    /// The `path` field.
    pub path: FieldValueView,
    /// The `dir` field, an older name for `path`.
    pub dir: FieldValueView,
    /// The `events` field.
    pub events: ListFieldView,
    /// The `command` field.
    pub command: FieldValueView,
    /// The `file_match` field.
    pub file_match: FieldValueView,
    /// The `check_interval` field.
    pub check_interval: IntFieldView,
}

impl View for ConfigEntry {
    type V = ConfigEntryView;

    open spec fn view(&self) -> ConfigEntryView {
        ConfigEntryView {
            is_object: self.is_object,
            path: self.path@,
            dir: self.dir@,
            events: self.events@,
            command: self.command@,
            file_match: self.file_match@,
            check_interval: self.check_interval@,
        }
    }
}

/// Why one configuration entry was rejected. One bad entry never aborts
/// loading the rest.
#[derive(Clone, Copy, Debug, PartialEq, Eq, Structural)]
pub enum ConfigError {
    /// The entry is not an object.
    NotAnObject,
    /// `path` (or `dir`), `events` or `command` is absent.
    MissingParameter,
    /// `path` (or `dir`) does not hold text.
    PathNotAString,
    /// `events` does not hold a list.
    EventsNotAnArray,
    /// `command` does not hold text.
    CommandNotAString,
    /// The configured path does not exist on the host.
    PathDoesNotExist,
    /// No event name of the entry is recognized.
    NoRecognizedEvents,
}

/// A watch element: a directory path, the mask of event kinds to watch, a
/// command template, an optional file-name pattern (empty means match all),
/// and the stabilization interval in seconds (0 means execute immediately).
#[derive(Clone)]
pub struct WatchElement {
    /// The path string given by the user
    pub path: String,
    /// The command string
    pub command: String,
    /// The mask of watched event kinds
    pub mask: u32,
    /// The file_match option
    pub file_match: String,
    /// The time interval in seconds between size checks
    pub check_interval: i64,
}

/// The mathematical content of a `WatchElement`.
#[verifier::ext_equal]
pub struct WatchElementView {
    /// The path string given by the user
    pub path: Seq<char>,
    /// The command string
    pub command: Seq<char>,
    /// The mask of watched event kinds
    pub mask: u32,
    /// The file_match option
    pub file_match: Seq<char>,
    /// The time interval in seconds between size checks
    pub check_interval: int,
}

impl View for WatchElement {
    type V = WatchElementView;

    open spec fn view(&self) -> WatchElementView {
        WatchElementView {
            path: self.path@,
            command: self.command@,
            mask: self.mask,
            file_match: self.file_match@,
            check_interval: self.check_interval as int,
        }
    }
}

/// The event mask bit(s) named by one event string, if recognized. Each name
/// is accepted with or without the `IN_` prefix. The name `CLOSE` is
/// accepted but watches the move events.
pub open spec fn spec_event_mask(name: Seq<char>) -> Option<u32> {
    if name == "ATTRIB"@ || name == "IN_ATTRIB"@ {
        Some(MASK_ATTRIB)
    } else if name == "CLOSE_WRITE"@ || name == "IN_CLOSE_WRITE"@ {
        Some(MASK_CLOSE_WRITE)
    } else if name == "CLOSE_NOWRITE"@ || name == "IN_CLOSE_NOWRITE"@ {
        Some(MASK_CLOSE_NOWRITE)
    } else if name == "CREATE"@ || name == "IN_CREATE"@ {
        Some(MASK_CREATE)
    } else if name == "DELETE"@ || name == "IN_DELETE"@ {
        Some(MASK_DELETE)
    } else if name == "DELETE_SELF"@ || name == "IN_DELETE_SELF"@ {
        Some(MASK_DELETE_SELF)
    } else if name == "MODIFY"@ || name == "IN_MODIFY"@ {
        Some(MASK_MODIFY)
    } else if name == "MOVE_SELF"@ || name == "IN_MOVE_SELF"@ {
        Some(MASK_MOVE_SELF)
    } else if name == "MOVED_FROM"@ || name == "IN_MOVED_FROM"@ {
        Some(MASK_MOVED_FROM)
    } else if name == "MOVED_TO"@ || name == "IN_MOVED_TO"@ {
        Some(MASK_MOVED_TO)
    } else if name == "OPEN"@ || name == "IN_OPEN"@ {
        Some(MASK_OPEN)
    } else if name == "ALL_EVENTS"@ || name == "IN_ALL_EVENTS"@ {
        Some(MASK_ALL_EVENTS)
    } else if name == "MOVE"@ || name == "IN_MOVE"@ {
        Some(MASK_MOVE)
    } else if name == "CLOSE"@ || name == "IN_CLOSE"@ {
        Some(MASK_MOVE)
    } else if name == "DONT_FOLLOW"@ || name == "IN_DONT_FOLLOW"@ {
        Some(MASK_DONT_FOLLOW)
    } else if name == "EXCL_UNLINK"@ || name == "IN_EXCL_UNLINK"@ {
        Some(MASK_EXCL_UNLINK)
    } else if name == "MASK_ADD"@ || name == "IN_MASK_ADD"@ {
        Some(MASK_MASK_ADD)
    } else if name == "ONESHOT"@ || name == "IN_ONESHOT"@ {
        Some(MASK_ONESHOT)
    } else if name == "ONLYDIR"@ || name == "IN_ONLYDIR"@ {
        Some(MASK_ONLYDIR)
    } else {
        None
    }
}

/// The combined event mask named by a list of event items, folded left to
/// right over `acc`: items that are not text and names that are not
/// recognized are skipped; the first recognized name starts the mask and
/// later ones are or-ed into it.
pub open spec fn fold_events(items: Seq<FieldValueView>, acc: Option<u32>) -> Option<u32>
    decreases items.len(),
{
    if items.len() == 0 {
        acc
    } else {
        let next = match items[0] {
            FieldValueView::Text(name) => match spec_event_mask(name) {
                Some(m) => match acc {
                    None => Some(m),
                    Some(x) => Some(x | m),
                },
                None => acc,
            },
            _ => acc,
        };
        fold_events(items.drop_first(), next)
    }
}

/// What converting one configuration entry yields: either a ready watch
/// element or the reason the entry is rejected. `dir` stands in for a
/// missing `path`; a missing or non-text `file_match` means match all; a
/// missing or non-integer `check_interval` means execute immediately.
pub open spec fn spec_from_entry(e: ConfigEntryView, path_exists: bool) -> Result<
    WatchElementView,
    ConfigError,
> {
    if !e.is_object {
        Err(ConfigError::NotAnObject)
    } else {
        let pathf = if e.path is Missing {
            e.dir
        } else {
            e.path
        };
        let file_match = match e.file_match {
            FieldValueView::Text(s) => s,
            _ => Seq::<char>::empty(),
        };
        let check_interval = match e.check_interval {
            IntFieldView::Num(v) => v,
            _ => 0,
        };
        if pathf is Missing || e.events is Missing || e.command is Missing {
            Err(ConfigError::MissingParameter)
        } else {
            match (pathf, e.events, e.command) {
                (
                    FieldValueView::Text(path),
                    ListFieldView::Items(items),
                    FieldValueView::Text(command),
                ) => {
                    if !path_exists {
                        Err(ConfigError::PathDoesNotExist)
                    } else {
                        match fold_events(items, None) {
                            None => Err(ConfigError::NoRecognizedEvents),
                            Some(mask) => Ok(
                                WatchElementView { path, command, mask, file_match, check_interval },
                            ),
                        }
                    }
                },
                (FieldValueView::Wrong, _, _) => Err(ConfigError::PathNotAString),
                (_, ListFieldView::Wrong, _) => Err(ConfigError::EventsNotAnArray),
                (_, _, FieldValueView::Wrong) => Err(ConfigError::CommandNotAString),
                _ => Err(ConfigError::MissingParameter),
            }
        }
    }
}

/// The event mask bit(s) named by one event string, per `spec_event_mask`.
///
/// Both `EVENT` and `IN_EVENT` can be used.
pub fn event_name_to_value(name: &str) -> (r: Option<u32>)
    ensures
        r == spec_event_mask(name@),
{
    if str_eq(name, "ATTRIB") || str_eq(name, "IN_ATTRIB") {
        Some(MASK_ATTRIB)
    } else if str_eq(name, "CLOSE_WRITE") || str_eq(name, "IN_CLOSE_WRITE") {
        Some(MASK_CLOSE_WRITE)
    } else if str_eq(name, "CLOSE_NOWRITE") || str_eq(name, "IN_CLOSE_NOWRITE") {
        Some(MASK_CLOSE_NOWRITE)
    } else if str_eq(name, "CREATE") || str_eq(name, "IN_CREATE") {
        Some(MASK_CREATE)
    } else if str_eq(name, "DELETE") || str_eq(name, "IN_DELETE") {
        Some(MASK_DELETE)
    } else if str_eq(name, "DELETE_SELF") || str_eq(name, "IN_DELETE_SELF") {
        Some(MASK_DELETE_SELF)
    } else if str_eq(name, "MODIFY") || str_eq(name, "IN_MODIFY") {
        Some(MASK_MODIFY)
    } else if str_eq(name, "MOVE_SELF") || str_eq(name, "IN_MOVE_SELF") {
        Some(MASK_MOVE_SELF)
    } else if str_eq(name, "MOVED_FROM") || str_eq(name, "IN_MOVED_FROM") {
        Some(MASK_MOVED_FROM)
    } else if str_eq(name, "MOVED_TO") || str_eq(name, "IN_MOVED_TO") {
        Some(MASK_MOVED_TO)
    } else if str_eq(name, "OPEN") || str_eq(name, "IN_OPEN") {
        Some(MASK_OPEN)
    } else if str_eq(name, "ALL_EVENTS") || str_eq(name, "IN_ALL_EVENTS") {
        Some(MASK_ALL_EVENTS)
    } else if str_eq(name, "MOVE") || str_eq(name, "IN_MOVE") {
        Some(MASK_MOVE)
    } else if str_eq(name, "CLOSE") || str_eq(name, "IN_CLOSE") {
        Some(MASK_MOVE)
    } else if str_eq(name, "DONT_FOLLOW") || str_eq(name, "IN_DONT_FOLLOW") {
        Some(MASK_DONT_FOLLOW)
    } else if str_eq(name, "EXCL_UNLINK") || str_eq(name, "IN_EXCL_UNLINK") {
        Some(MASK_EXCL_UNLINK)
    } else if str_eq(name, "MASK_ADD") || str_eq(name, "IN_MASK_ADD") {
        Some(MASK_MASK_ADD)
    } else if str_eq(name, "ONESHOT") || str_eq(name, "IN_ONESHOT") {
        Some(MASK_ONESHOT)
    } else if str_eq(name, "ONLYDIR") || str_eq(name, "IN_ONLYDIR") {
        Some(MASK_ONLYDIR)
    } else {
        None
    }
}

impl WatchElement {
    /// Whether this element and `other` are structurally identical: all five
    /// declarative fields equal. Used to recognize an unchanged watch across
    /// a configuration reload.
    pub fn same_as(&self, other: &WatchElement) -> (r: bool)
        ensures
            r == (self@ == other@),
    {
        let r = self.path == other.path && self.command == other.command && self.mask == other.mask
            && self.file_match == other.file_match && self.check_interval == other.check_interval;
        proof {
            if r {
                assert(self@ =~= other@);
            }
        }
        r
    }

    /// Converts one already-deserialized configuration entry into a watch
    /// element, or reports why the entry is rejected, exactly as
    /// `spec_from_entry` says. `path_exists` is the host's answer to whether
    /// the directory named by the entry's path text exists.
    pub fn from_json_value(entry: &ConfigEntry, path_exists: bool) -> (r: Result<
        WatchElement,
        ConfigError,
    >)
        ensures
            (match r {
                Ok(w) => Ok::<WatchElementView, ConfigError>(w@),
                Err(er) => Err(er),
            }) == spec_from_entry(entry@, path_exists),
    {
        if !entry.is_object {
            return Err(ConfigError::NotAnObject);
        }
        let path_field = match entry.path {
            FieldValue::Missing => &entry.dir,
            _ => &entry.path,
        };
        let file_match: String = match &entry.file_match {
            FieldValue::Text(s) => s.clone(),
            _ => String::new(),
        };
        let check_interval: i64 = match &entry.check_interval {
            IntField::Num(v) => *v,
            _ => 0,
        };
        let path_missing = matches!(path_field, FieldValue::Missing);
        let events_missing = matches!(entry.events, ListField::Missing);
        let command_missing = matches!(entry.command, FieldValue::Missing);
        if path_missing || events_missing || command_missing {
            return Err(ConfigError::MissingParameter);
        }
        let path = match path_field {
            FieldValue::Text(s) => s,
            _ => {
                return Err(ConfigError::PathNotAString);
            },
        };
        let items = match &entry.events {
            ListField::Items(v) => v,
            _ => {
                return Err(ConfigError::EventsNotAnArray);
            },
        };
        let command = match &entry.command {
            FieldValue::Text(s) => s,
            _ => {
                return Err(ConfigError::CommandNotAString);
            },
        };
        if !path_exists {
            return Err(ConfigError::PathDoesNotExist);
        }
        let ghost mapped = items@.map_values(|f: FieldValue| f@);
        let mut mask_acc: Option<u32> = None;
        let mut idx: usize = 0;
        proof {
            assert(mapped.skip(0) =~= mapped);
        }
        while idx < items.len()
            invariant
                idx <= items.len(),
                mapped == items@.map_values(|f: FieldValue| f@),
                fold_events(mapped, None) == fold_events(mapped.skip(idx as int), mask_acc),
            decreases items.len() - idx,
        {
            let ghost rest = mapped.skip(idx as int);
            proof {
                assert(rest[0] == mapped[idx as int]);
                assert(rest.drop_first() =~= mapped.skip(idx as int + 1));
            }
            match &items[idx] {
                FieldValue::Text(name) => {
                    let detected = event_name_to_value(name.as_str());
                    match detected {
                        Some(m) => {
                            mask_acc = match mask_acc {
                                None => Some(m),
                                Some(x) => Some(x | m),
                            };
                        },
                        None => {},
                    }
                },
                _ => {},
            }
            idx = idx + 1;
        }
        proof {
            assert(mapped.skip(items@.len() as int) =~= Seq::<FieldValueView>::empty());
        }
        match mask_acc {
            None => Err(ConfigError::NoRecognizedEvents),
            Some(mask) => Ok(
                WatchElement {
                    path: path.clone(),
                    command: command.clone(),
                    mask,
                    file_match,
                    check_interval,
                },
            ),
        }
    }
}

} // verus!
