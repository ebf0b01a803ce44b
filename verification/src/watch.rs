//! The watched files: for each, its rule, its tracker and how much of it has
//! been read. A change of a file is answered with the part to read, and the
//! lines read there go to the file's tracker.
use crate::config::WatchConfig;
use crate::scan::{breaches, captured, feed, search_ip_in_new_lines, texts};
use crate::strmap::StrMap;
use crate::tracker::{swept, Occurrence, Tracker};
use vstd::prelude::*;

verus! {

/// What is known of one watched file: the pattern, window and threshold of
/// its rule, the sightings its tracker holds, and the length up to which the
/// file has been read.
pub struct Watched {
    pub regex: Seq<char>,
    pub findtime: u64,
    pub maxretry: usize,
    pub sightings: Map<Seq<char>, Seq<Occurrence>>,
    pub length: u64,
}

/// A file as it is when it comes under watch at `length`: nothing seen yet.
pub open spec fn unread(config: WatchConfig, length: u64) -> Watched {
    Watched {
        regex: config.regex@,
        findtime: config.findtime,
        maxretry: config.maxretry,
        sightings: Map::empty(),
        length,
    }
}

/// The files after `path` was found to have the length `current`: a watched
/// file is read up to there from now on, grown or shrunk.
pub open spec fn resized(files: Map<Seq<char>, Watched>, path: Seq<char>, current: u64) -> Map<
    Seq<char>,
    Watched,
> {
    if files.dom().contains(path) {
        files.insert(path, Watched { length: current, ..files[path] })
    } else {
        files
    }
}

/// Where to start reading `path` now that its length is `current`: at the
/// length it was read up to, if it has grown past it. A file that is not
/// watched, or has not grown, has nothing to read.
pub open spec fn unread_from(files: Map<Seq<char>, Watched>, path: Seq<char>, current: u64)
    -> Option<u64> {
    if files.dom().contains(path) && current > files[path].length {
        Some(files[path].length)
    } else {
        None
    }
}

/// The files after `lines` of `path` went to its tracker at `now`.
pub open spec fn searched(
    files: Map<Seq<char>, Watched>,
    path: Seq<char>,
    lines: Seq<Seq<char>>,
    now: u64,
) -> Map<Seq<char>, Watched> {
    if files.dom().contains(path) {
        let file = files[path];
        files.insert(
            path,
            Watched {
                sightings: feed(file.sightings, captured(file.regex, lines), file.findtime, now),
                ..file
            },
        )
    } else {
        files
    }
}

/// The addresses of `lines` of `path` that were found at or over the
/// threshold of its rule, in file order; none for a file that is not watched.
pub open spec fn flagged(
    files: Map<Seq<char>, Watched>,
    path: Seq<char>,
    lines: Seq<Seq<char>>,
    now: u64,
) -> Seq<Seq<char>> {
    if files.dom().contains(path) {
        let file = files[path];
        breaches(
            file.sightings,
            captured(file.regex, lines),
            file.findtime,
            file.maxretry as nat,
            now,
        )
    } else {
        Seq::empty()
    }
}

/// The files after each tracker was cleared of what no longer counts at
/// `now`.
pub open spec fn all_swept(files: Map<Seq<char>, Watched>, now: u64) -> Map<Seq<char>, Watched> {
    files.map_values(|file: Watched| Watched { sightings: swept(file.sightings, now), ..file })
}

/// One watched file.
struct Watch {
    config: WatchConfig,
    tracker: Tracker,
    length: u64,
}

impl View for Watch {
    type V = Watched;

    closed spec fn view(&self) -> Watched {
        Watched {
            regex: self.config.regex@,
            findtime: self.config.findtime,
            maxretry: self.config.maxretry,
            sightings: self.tracker@,
            length: self.length,
        }
    }
}

/// The watched files, by path. The view maps each path to what is known of
/// the file.
pub struct Watcher {
    files: StrMap<Watch>,
}

impl View for Watcher {
    type V = Map<Seq<char>, Watched>;

    closed spec fn view(&self) -> Map<Seq<char>, Watched> {
        self.files@.map_values(|file: Watch| file@)
    }
}

impl Watcher {
    /// A watcher without files.
    pub fn new() -> (watcher: Self)
        ensures
            watcher@ == Map::<Seq<char>, Watched>::empty(),
    {
        let watcher = Watcher { files: StrMap::new() };
        watcher
    }

    /// Puts the file of `config` under watch, read up to `length`, with a
    /// tracker of its own. A path that is watched already keeps its first
    /// rule; the answer tells whether the file was added.
    pub fn watch(&mut self, config: WatchConfig, length: u64) -> (added: bool)
        ensures
            added == !old(self)@.dom().contains(config.path@),
            final(self)@ == if added {
                old(self)@.insert(config.path@, unread(config, length))
            } else {
                old(self)@
            },
    {
        if self.files.contains_key(config.path.as_str()) {
            return false;
        }
        let path = config.path.clone();
        let file = Watch { config, tracker: Tracker::new(), length };
        self.files.insert(path, file);
        true
    }

    /// Takes note that `path` now has the length `current_len` and tells
    /// where to start reading it: `Some(start)` if it is watched and has
    /// grown since it was last read, `None` if not.
    pub fn file_changed(&mut self, path: &str, current_len: u64) -> (start: Option<u64>)
        ensures
            start == unread_from(old(self)@, path@, current_len),
            final(self)@ == resized(old(self)@, path@, current_len),
            start matches Some(from) ==> from < current_len,
    {
        match self.files.remove(path) {
            Some(file) => {
                let previous_len = file.length;
                let file = Watch { config: file.config, tracker: file.tracker, length: current_len };
                self.files.insert(path.to_owned(), file);
                if current_len > previous_len {
                    Some(previous_len)
                } else {
                    None
                }
            },
            None => {
                None
            },
        }
    }

    /// Clears every tracker of what no longer counts at `now`.
    pub fn sweep(&mut self, now: u64)
        ensures
            final(self)@ == all_swept(old(self)@, now),
    {
        let mut rest: StrMap<Watch> = StrMap::new();
        std::mem::swap(&mut rest, &mut self.files);
        let ghost start = rest@;
        let mut done: StrMap<Watch> = StrMap::new();
        loop
            invariant
                forall|path: Seq<char>| #[trigger]
                    rest@.dom().contains(path) ==> start.dom().contains(path) && rest@[path]
                        == start[path],
                forall|path: Seq<char>| #[trigger]
                    done@.dom().contains(path) <==> start.dom().contains(path)
                        && !rest@.dom().contains(path),
                forall|path: Seq<char>| #[trigger]
                    done@.dom().contains(path) ==> done@[path]@ == (Watched {
                        sightings: swept(start[path]@.sightings, now),
                        ..start[path]@
                    }),
            ensures
                rest@ == Map::<Seq<char>, Watch>::empty(),
            decreases rest.size(),
        {
            match rest.pop() {
                Some((path, file)) => {
                    let mut tracker = file.tracker;
                    tracker.sweep(now);
                    done.insert(path, Watch { config: file.config, tracker, length: file.length });
                },
                None => {
                    break ;
                },
            }
        }
        self.files = done;
    }

    /// Hands the new `lines` of `path` to its tracker at `now` and returns
    /// the addresses to block, in file order.
    pub fn search(&mut self, path: &str, lines: &Vec<String>, now: u64) -> (hits: Vec<String>)
        ensures
            final(self)@ == searched(old(self)@, path@, texts(lines@), now),
            texts(hits@) == flagged(old(self)@, path@, texts(lines@), now),
    {
        match self.files.remove(path) {
            Some(file) => {
                let mut tracker = file.tracker;
                let hits = search_ip_in_new_lines(&mut tracker, lines, &file.config, now);
                let file = Watch { config: file.config, tracker, length: file.length };
                self.files.insert(path.to_owned(), file);
                hits
            },
            None => {
                let hits: Vec<String> = Vec::new();
                hits
            },
        }
    }
}

} // verus!
