//! The rows of the process details view, built from plain values that the
//! process table supplies.
use std::time::Duration;
use vstd::prelude::*;
use vstd::string::*;

use crate::text::{decimal, push_decimal};

verus! {

/// What the process table reports of one process.
#[derive(Debug)]
pub struct ProcessDetails {
    pub name: String,
    pub pid: u32,
    /// The owner's name, if known
    pub user: Option<String>,
    /// The effective owner's name, if known
    pub effective_user: Option<String>,
    /// The executable's path, if known
    pub exe: Option<String>,
    /// The command line, one argument each
    pub cmd: Vec<String>,
    /// The working directory, if known
    pub cwd: Option<String>,
    /// Resident memory in bytes
    pub memory: u64,
    /// Virtual memory in bytes
    pub virtual_memory: u64,
    /// Start, in seconds since the Unix epoch
    pub start_time: u64,
    /// Time since start, in seconds
    pub run_time: u64,
    pub status: String,
    /// The environment, one `KEY=value` each
    pub environ: Vec<String>,
}

/// The text `bytesize` gives a number of bytes ("512 B", "1.0 KiB", ...).
pub uninterp spec fn byte_size_text(bytes: u64) -> Seq<char>;

/// The text `chrono` gives the UTC date and time of a Unix timestamp.
pub uninterp spec fn utc_time_text(secs: u64) -> Seq<char>;

/// The text `humantime` gives a duration in seconds ("1h 1m 1s").
pub uninterp spec fn duration_text(secs: u64) -> Seq<char>;

/// Relies on `bytesize::ByteSize::b` and its `Display`: the text depends on
/// the number of bytes alone.
#[verifier::external_body]
fn format_bytes(bytes: u64) -> (r: String)
    ensures
        r@ == byte_size_text(bytes),
{
    bytesize::ByteSize::b(bytes).to_string()
}

/// Relies on `chrono::DateTime::from_timestamp` and the `Display` of
/// `DateTime<Utc>`: the text depends on the timestamp alone (a timestamp
/// out of chrono's range shows as the default date).
#[verifier::external_body]
fn format_timestamp(secs: u64) -> (r: String)
    ensures
        r@ == utc_time_text(secs),
{
    chrono::DateTime::from_timestamp(secs as i64, 0).unwrap_or_default().to_string()
}

/// Relies on `humantime::format_duration`: the text depends on the number
/// of seconds alone.
#[verifier::external_body]
fn format_seconds(secs: u64) -> (r: String)
    ensures
        r@ == duration_text(secs),
{
    humantime::format_duration(Duration::from_secs(secs)).to_string()
}

/// The parts joined by single spaces.
pub open spec fn joined(parts: Seq<Seq<char>>) -> Seq<char>
    decreases parts.len(),
{
    if parts.len() == 0 {
        Seq::empty()
    } else if parts.len() == 1 {
        parts[0]
    } else {
        joined(parts.drop_last()) + seq![' '] + parts.last()
    }
}

/// A known value, or the text for an unknown one.
pub open spec fn or_else(o: Option<String>, fallback: Seq<char>) -> Seq<char> {
    match o {
        Some(s) => s@,
        None => fallback,
    }
}

/// The texts of a list of strings.
pub open spec fn string_views(s: Seq<String>) -> Seq<Seq<char>> {
    s.map_values(|x: String| x@)
}

/// The fixed rows of a process's details, before its environment.
pub open spec fn detail_rows(d: ProcessDetails) -> Seq<(Seq<char>, Seq<char>)> {
    seq![
        ("Name:"@, d.name@),
        ("Pid:"@, decimal(d.pid as nat)),
        ("User:"@, or_else(d.user, "unknown"@)),
        ("Effective user:"@, or_else(d.effective_user, "unknown"@)),
        ("Path:"@, or_else(d.exe, "path not available"@)),
        ("Command line:"@, joined(string_views(d.cmd@))),
        ("Working dir:"@, or_else(d.cwd, "cwd not available"@)),
        ("Memory:"@, byte_size_text(d.memory)),
        ("Virtual memory:"@, byte_size_text(d.virtual_memory)),
        ("Started:"@, utc_time_text(d.start_time)),
        ("Run time:"@, duration_text(d.run_time)),
        ("Status:"@, d.status@),
    ]
}

/// All rows of the details view: the fixed rows, then one `env` row per
/// environment entry; a single "not available" row when the process is gone.
pub open spec fn process_rows(d: Option<ProcessDetails>) -> Seq<(Seq<char>, Seq<char>)> {
    match d {
        Some(p) => detail_rows(p) + Seq::new(
            p.environ@.len(),
            |i: int| ("env"@, p.environ@[i]@),
        ),
        None => seq![("Process"@, "not available"@)],
    }
}

/// The views of a list of rows.
pub open spec fn row_views(r: Seq<(String, String)>) -> Seq<(Seq<char>, Seq<char>)> {
    r.map_values(|x: (String, String)| (x.0@, x.1@))
}

/// The parts joined by single spaces.
pub fn join_with_spaces(parts: &Vec<String>) -> (r: String)
    ensures
        r@ == joined(string_views(parts@)),
{
    let mut r = String::new();
    let mut i: usize = 0;
    proof {
        reveal_strlit(" ");
    }
    assert(" "@ =~= seq![' ']);
    while i < parts.len()
        invariant
            i <= parts@.len(),
            " "@ == seq![' '],
            r@ == joined(string_views(parts@).take(i as int)),
        decreases parts@.len() - i,
    {
        let ghost before = r@;
        if i > 0 {
            r.append(" ");
        }
        r.append(parts[i].as_str());
        proof {
            let v = string_views(parts@);
            assert(v.take(i + 1).drop_last() =~= v.take(i as int));
            assert(v.take(i + 1).last() == parts@[i as int]@);
            if i == 0 {
                assert(r@ =~= v.take(1)[0]);
            } else {
                assert(r@ =~= before + seq![' '] + parts@[i as int]@);
            }
        }
        i = i + 1;
    }
    assert(string_views(parts@).take(parts@.len() as int) =~= string_views(parts@));
    r
}

fn known_or(o: &Option<String>, fallback: &str) -> (r: String)
    ensures
        r@ == match o {
            Some(s) => s@,
            None => fallback@,
        },
{
    match o {
        Some(s) => s.clone(),
        None => String::from_str(fallback),
    }
}

fn labelled(label: &str, value: String) -> (r: (String, String))
    ensures
        r.0@ == label@,
        r.1@ == value@,
{
    (String::from_str(label), value)
}

/// The rows of the details view of a process, or of a process that is gone.
pub fn process_info_to_rows(details: &Option<ProcessDetails>) -> (r: Vec<(String, String)>)
    ensures
        row_views(r@) == process_rows(*details),
{
    match details {
        None => {
            let mut r: Vec<(String, String)> = Vec::new();
            r.push(labelled("Process", String::from_str("not available")));
            assert(row_views(r@) =~= process_rows(*details));
            r
        },
        Some(d) => {
            let mut pid_text = String::new();
            push_decimal(&mut pid_text, d.pid as u64);
            assert(pid_text@ =~= decimal(d.pid as nat));
            let mut r: Vec<(String, String)> = Vec::new();
            r.push(labelled("Name:", d.name.clone()));
            r.push(labelled("Pid:", pid_text));
            r.push(labelled("User:", known_or(&d.user, "unknown")));
            r.push(labelled("Effective user:", known_or(&d.effective_user, "unknown")));
            r.push(labelled("Path:", known_or(&d.exe, "path not available")));
            r.push(labelled("Command line:", join_with_spaces(&d.cmd)));
            r.push(labelled("Working dir:", known_or(&d.cwd, "cwd not available")));
            r.push(labelled("Memory:", format_bytes(d.memory)));
            r.push(labelled("Virtual memory:", format_bytes(d.virtual_memory)));
            r.push(labelled("Started:", format_timestamp(d.start_time)));
            r.push(labelled("Run time:", format_seconds(d.run_time)));
            r.push(labelled("Status:", d.status.clone()));
            assert(row_views(r@) =~= detail_rows(*d));
            let ghost fixed = row_views(r@);
            let mut i: usize = 0;
            while i < d.environ.len()
                invariant
                    i <= d.environ@.len(),
                    row_views(r@) =~= fixed + Seq::new(i as nat, |k: int| ("env"@, d.environ@[k]@)),
                decreases d.environ@.len() - i,
            {
                let ghost before = r@;
                let row = labelled("env", d.environ[i].clone());
                r.push(row);
                assert(row_views(r@) =~= row_views(before).push((row.0@, row.1@)));
                i = i + 1;
            }
            r
        },
    }
}

} // verus!
