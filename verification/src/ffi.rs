//! The embedding surface for mobile apps: daemon configuration and status,
//! message responses, and the daemon's start/stop bookkeeping.

use vstd::prelude::*;
use vstd::string::*;
use crate::numparse::{parse_u64, parse_u64_chars, split_char, split_on};
use crate::text::{chars_of, split_whitespace, starts_with, starts_with_chars, words};

verus! {

/// Daemon configuration handed over by the app.
#[derive(Debug, Clone)]
pub struct DaemonConfig {
    /// Path of the configuration file, or inline TOML.
    pub config_path: String,
    /// Directory for the database, logs and so on.
    pub data_dir: String,
    pub host: String,
    pub port: u16,
}

/// A snapshot of the daemon's status.
#[derive(Debug, Clone)]
pub struct DaemonStatus {
    pub running: bool,
    pub uptime_secs: u64,
    pub agent_count: usize,
    pub active_sessions: usize,
    pub total_requests: u64,
    /// Estimated memory use in bytes.
    pub memory_bytes: u64,
    pub version: String,
}

/// The answer to a message sent to the daemon.
#[derive(Debug, Clone)]
pub struct MessageResponse {
    pub success: bool,
    pub response: String,
    /// The agent that handled the message.
    pub agent: String,
    pub tokens_used: u32,
}

/// The library's version.
pub open spec fn version_text() -> Seq<char> {
    "0.1.0"@
}

/// The library's version.
pub fn get_version() -> (r: String)
    ensures
        r@ == version_text(),
{
    String::from_str("0.1.0")
}

/// Whether the daemon was started, and whether it was asked to stop.  A
/// daemon is started once per process; asking it to stop does not let it
/// be started again.
pub struct DaemonState {
    started: bool,
    stop_requested: bool,
}

impl DaemonState {
    pub closed spec fn is_started(self) -> bool {
        self.started
    }

    pub closed spec fn is_stop_requested(self) -> bool {
        self.stop_requested
    }

    /// No daemon yet.
    pub fn new() -> (r: Self)
        ensures
            !r.is_started(),
            !r.is_stop_requested(),
    {
        DaemonState { started: false, stop_requested: false }
    }

    /// Starts the daemon; an error when it was started before.
    pub fn start(&mut self) -> (r: Result<(), String>)
        ensures
            r is Ok <==> !old(self).is_started(),
            r matches Err(e) ==> e@ == "Daemon already running"@,
            final(self).is_started(),
            final(self).is_stop_requested() == old(self).is_stop_requested(),
    {
        if self.started {
            return Err(String::from_str("Daemon already running"));
        }
        self.started = true;
        Ok(())
    }

    /// Asks the daemon to stop; an error when it was never started.
    pub fn stop(&mut self) -> (r: Result<(), String>)
        ensures
            r is Ok <==> old(self).is_started(),
            r matches Err(e) ==> e@ == "Daemon not running"@,
            final(self).is_started() == old(self).is_started(),
            final(self).is_stop_requested() == (old(self).is_stop_requested() || old(self).is_started()),
    {
        if !self.started {
            return Err(String::from_str("Daemon not running"));
        }
        self.stop_requested = true;
        Ok(())
    }

    /// The status snapshot; `memory_bytes` is the estimate taken for a
    /// running daemon.
    pub fn status(&self, memory_bytes: u64) -> (r: DaemonStatus)
        ensures
            r.running == self.is_started(),
            r.uptime_secs == 0,
            r.agent_count == 0,
            r.active_sessions == 0,
            r.total_requests == 0,
            r.memory_bytes == (if self.is_started() { memory_bytes } else { 0 }),
            r.version@ == version_text(),
    {
        DaemonStatus {
            running: self.started,
            uptime_secs: 0,
            agent_count: 0,
            active_sessions: 0,
            total_requests: 0,
            memory_bytes: if self.started { memory_bytes } else { 0 },
            version: get_version(),
        }
    }

    /// The answer to a message: echoed by the default agent while the
    /// daemon runs, refused otherwise.
    pub fn send_message(&self, message: &str) -> (r: MessageResponse)
        ensures
            r.success == self.is_started(),
            r.tokens_used == 0,
            self.is_started() ==> r.response@ == "Echo: "@ + message@ && r.agent@ == "default"@,
            !self.is_started() ==> r.response@ == "Daemon not running"@ && r.agent@ == Seq::<char>::empty(),
    {
        if self.started {
            let mut response = String::from_str("Echo: ");
            response.append(message);
            MessageResponse { success: true, response, agent: String::from_str("default"), tokens_used: 0 }
        } else {
            MessageResponse {
                success: false,
                response: String::from_str("Daemon not running"),
                agent: String::new(),
                tokens_used: 0,
            }
        }
    }
}

/// A line of a process status that gives the resident memory: it starts
/// with "VmRSS:" and its second word reads as a number of kilobytes.
pub open spec fn rss_line_kb(line: Seq<char>) -> Option<u64> {
    if starts_with(line, "VmRSS:"@) && words(line).len() > 1 {
        parse_u64(words(line)[1])
    } else {
        None
    }
}

/// The kilobytes of the first line that gives the resident memory.
pub open spec fn first_rss_kb(lines: Seq<Seq<char>>) -> Option<u64>
    decreases lines.len(),
{
    if lines.len() == 0 {
        None
    } else {
        match rss_line_kb(lines[0]) {
            Some(kb) => Some(kb),
            None => first_rss_kb(lines.drop_first()),
        }
    }
}

/// The resident memory in bytes read from the text of /proc/self/status
/// (kilobytes times 1024, wrapping as a release build does); `None` when
/// no line gives it.
pub fn rss_from_status(status: &str) -> (r: Option<u64>)
    ensures
        r == (match first_rss_kb(split_on(status@, '\n')) {
            Some(kb) => Some(((kb as int * 1024) % 0x1_0000_0000_0000_0000) as u64),
            None => None,
        }),
{
    proof {
        reveal_strlit("VmRSS:");
    }
    let cs = chars_of(status);
    let lines = split_char(cs.as_slice(), '\n');
    let ghost lv = lines@.map_values(|l: Vec<char>| l@);
    let prefix = chars_of("VmRSS:");
    let mut i: usize = 0;
    assert(lv.skip(0) =~= lv);
    while i < lines.len()
        invariant
            i <= lines.len(),
            lv == lines@.map_values(|l: Vec<char>| l@),
            lv == split_on(status@, '\n'),
            prefix@ == "VmRSS:"@,
            first_rss_kb(lv) == first_rss_kb(lv.skip(i as int)),
        decreases lines.len() - i,
    {
        let line = &lines[i];
        assert(lv[i as int] == line@);
        assert(lv.skip(i as int)[0] == line@);
        assert(lv.skip(i as int).drop_first() =~= lv.skip(i as int + 1));
        if starts_with_chars(line.as_slice(), prefix.as_slice()) {
            let ws = split_whitespace(line.as_slice());
            if ws.len() > 1 {
                assert(ws@.map_values(|w: Vec<char>| w@)[1] == ws@[1]@);
                match parse_u64_chars(ws[1].as_slice()) {
                    Some(kb) => {
                        return Some(kb.wrapping_mul(1024));
                    },
                    None => {},
                }
            }
        }
        i = i + 1;
    }
    None
}

} // verus!
