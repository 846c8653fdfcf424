//! Log lines and the tail of the log shown in the diagnostics panel. The
//! application writes the lines to its log file.
use vstd::prelude::*;
use crate::text::{chars_of, join, join_v, lines, lines_v, slice_v, string_of, views};

verus! {

/// One log line: `[timestamp][LEVEL] message` and a newline.
pub open spec fn log_line(ts: Seq<char>, level: Seq<char>, msg: Seq<char>) -> Seq<char> {
    "["@ + ts + "]["@ + level + "] "@ + msg + "\n"@
}

fn line(ts: &str, level: &str, msg: &str) -> (r: String)
    ensures
        r@ == log_line(ts@, level@, msg@),
{
    let mut s = String::new();
    s.append("[");
    s.append(ts);
    s.append("][");
    s.append(level);
    s.append("] ");
    s.append(msg);
    s.append("\n");
    s
}

/// An information line stamped `ts`.
pub fn info(ts: &str, msg: &str) -> (r: String)
    ensures
        r@ == log_line(ts@, "INFO"@, msg@),
{
    line(ts, "INFO", msg)
}

/// A warning line stamped `ts`.
pub fn warn(ts: &str, msg: &str) -> (r: String)
    ensures
        r@ == log_line(ts@, "WARN"@, msg@),
{
    line(ts, "WARN", msg)
}

/// An error line stamped `ts`.
pub fn error(ts: &str, msg: &str) -> (r: String)
    ensures
        r@ == log_line(ts@, "ERROR"@, msg@),
{
    line(ts, "ERROR", msg)
}

/// At most this many characters of the log are handed back.
pub const TAIL_MAX_CHARS: usize = 8000;

/// The last `n` lines of the log, and of them at most the last
/// `TAIL_MAX_CHARS` characters.
pub open spec fn tail_text(content: Seq<char>, n: nat) -> Seq<char> {
    let ls = lines(content);
    let start = if ls.len() >= n {
        ls.len() - n
    } else {
        0
    };
    let t = join(ls.skip(start), "\n"@);
    if t.len() <= TAIL_MAX_CHARS {
        t
    } else {
        t.skip(t.len() - TAIL_MAX_CHARS)
    }
}

pub fn tail(content: &str, lines_wanted: usize) -> (r: String)
    ensures
        r@ == tail_text(content@, lines_wanted as nat),
        r@.len() <= TAIL_MAX_CHARS,
{
    let ls = lines_v(&chars_of(content));
    let start = if ls.len() >= lines_wanted {
        ls.len() - lines_wanted
    } else {
        0
    };
    let mut kept: Vec<Vec<char>> = Vec::new();
    let mut i = start;
    while i < ls.len()
        invariant
            start <= i <= ls.len(),
            views(kept@) == views(ls@).subrange(start as int, i as int),
        decreases ls.len() - i,
    {
        let ghost before = views(kept@);
        kept.push(slice_v(&ls[i], 0, ls[i].len()));
        proof {
            assert(ls@[i as int]@.subrange(0, ls@[i as int]@.len() as int) =~= ls@[i as int]@);
            assert(views(kept@) =~= before.push(ls@[i as int]@));
            assert(views(ls@).subrange(start as int, i + 1) =~= views(ls@).subrange(start as int, i as int).push(
                ls@[i as int]@,
            ));
        }
        i += 1;
    }
    assert(views(ls@).subrange(start as int, ls.len() as int) =~= views(ls@).skip(start as int));
    let t = join_v(&kept, &chars_of("\n"));
    if t.len() <= TAIL_MAX_CHARS {
        string_of(&t)
    } else {
        let s = slice_v(&t, t.len() - TAIL_MAX_CHARS, t.len());
        assert(s@ =~= t@.skip(t.len() - TAIL_MAX_CHARS));
        string_of(&s)
    }
}

/// A log file larger than this is moved aside when the application starts.
pub const ROTATE_BYTES: u64 = 5242880;

pub fn needs_rotation(len: u64) -> (r: bool)
    ensures
        r == (len > ROTATE_BYTES),
{
    len > ROTATE_BYTES
}

/// Where the log is kept: set once, when logging starts; later settings
/// are ignored.
pub struct LogPlace {
    pub dir: Option<String>,
}

impl LogPlace {
    pub open spec fn dir_view(&self) -> Option<Seq<char>> {
        match self.dir {
            Some(d) => Some(d@),
            None => None,
        }
    }

    pub fn new() -> (r: LogPlace)
        ensures
            r.dir_view() is None,
    {
        LogPlace { dir: None }
    }

    /// Record the log directory unless one is recorded already.
    pub fn set_dir(&mut self, dir: &str)
        ensures
            old(self).dir_view() is None ==> final(self).dir_view() == Some(dir@),
            old(self).dir_view() is Some ==> final(self).dir_view() == old(self).dir_view(),
    {
        if self.dir.is_none() {
            let mut d = String::new();
            d.append(dir);
            self.dir = Some(d);
        }
    }

    /// The directory of the log file, for the diagnostics panel.
    pub fn log_dir(&self) -> (r: Option<String>)
        ensures
            match r {
                Some(d) => self.dir_view() == Some(d@),
                None => self.dir_view() is None,
            },
    {
        match &self.dir {
            Some(d) => Some(d.clone()),
            None => None,
        }
    }
}

} // verus!
