//! Endpoint resolution logic over plain snapshots of the OS tables: find
//! the first process whose name contains a query as a case-insensitive
//! substring, and the first TCP socket entry owned by a process, whose
//! remote address is then tracked. The snapshots themselves are taken by
//! the caller; this module holds only the verified lookup rules.

use vstd::prelude::*;

verus! {

/// One row of the process-table snapshot.
pub struct ProcEntry {
    pub pid: u32,
    pub name: String,
}

/// One row of the socket-table snapshot: the process ids sharing the
/// socket, whether it is a TCP connection, and its remote address.
pub struct SockEntry {
    pub pids: Vec<u32>,
    pub tcp: bool,
    pub remote_addr: String,
}

/// What `str::to_lowercase` returns for a string with these characters.
pub uninterp spec fn lower_of(s: Seq<char>) -> Seq<char>;

/// Relies on str::to_lowercase: the result depends on the input
/// characters alone.
#[verifier::external_body]
fn lowercase(s: &str) -> (r: String)
    ensures
        r@ == lower_of(s@),
{
    s.to_lowercase()
}

/// `needle` occurs in `hay` starting at position `i`.
pub open spec fn match_at(hay: Seq<char>, needle: Seq<char>, i: int) -> bool {
    hay.subrange(i, i + needle.len()) == needle
}

/// `needle` occurs somewhere in `hay` as a contiguous substring.
pub open spec fn is_substring(hay: Seq<char>, needle: Seq<char>) -> bool {
    exists|i: int| 0 <= i && i + needle.len() <= hay.len() && match_at(hay, needle, i)
}

/// Substring search: whether `needle` occurs contiguously in `hay`.
pub fn contains_str(hay: &str, needle: &str) -> (r: bool)
    ensures
        r == is_substring(hay@, needle@),
{
    let n = hay.unicode_len();
    let m = needle.unicode_len();
    if m > n {
        return false;
    }
    if m == 0 {
        proof {
            assert(hay@.subrange(0, 0) =~= needle@);
            assert(match_at(hay@, needle@, 0));
        }
        return true;
    }
    let mut i: usize = 0;
    while i <= n - m
        invariant
            n == hay@.len(),
            m == needle@.len(),
            0 < m <= n,
            i <= n - m + 1,
            forall|k: int| 0 <= k < i ==> !match_at(hay@, needle@, k),
        decreases n - m - i + 1,
    {
        let mut j: usize = 0;
        let mut ok = true;
        while ok && j < m
            invariant
                n == hay@.len(),
                m == needle@.len(),
                i + m <= n,
                j <= m,
                ok ==> forall|l: int| 0 <= l < j ==> hay@[i + l] == needle@[l],
                !ok ==> !match_at(hay@, needle@, i as int),
            decreases m - j + (if ok {
                1int
            } else {
                0int
            }),
        {
            if hay.get_char(i + j) != needle.get_char(j) {
                proof {
                    if match_at(hay@, needle@, i as int) {
                        assert(hay@.subrange(i as int, i + needle@.len())[j as int]
                            == needle@[j as int]);
                    }
                }
                ok = false;
            } else {
                j = j + 1;
            }
        }
        if ok {
            proof {
                assert(hay@.subrange(i as int, i + needle@.len()) =~= needle@);
                assert(match_at(hay@, needle@, i as int));
            }
            return true;
        }
        i = i + 1;
    }
    false
}

/// `query` occurs case-insensitively in the entry's process name.
pub open spec fn proc_matches(e: ProcEntry, query: Seq<char>) -> bool {
    is_substring(lower_of(e.name@), query)
}

/// Pid of the first table entry matching `query`, in table order.
pub open spec fn first_match_pid(procs: Seq<ProcEntry>, query: Seq<char>) -> Option<u32>
    decreases procs.len(),
{
    if procs.len() == 0 {
        None
    } else if proc_matches(procs[0], query) {
        Some(procs[0].pid)
    } else {
        first_match_pid(procs.drop_first(), query)
    }
}

/// Scans the process-table snapshot for the first entry whose lowercased
/// name contains `name`, and returns its pid; None when no entry matches.
/// `name` itself is matched as given, so a lowercase query matches
/// case-insensitively.
pub fn find_process_pids(procs: &Vec<ProcEntry>, name: &str) -> (r: Option<u32>)
    ensures
        r == first_match_pid(procs@, name@),
{
    proof {
        assert(procs@.skip(0) =~= procs@);
    }
    let mut i: usize = 0;
    while i < procs.len()
        invariant
            i <= procs@.len(),
            first_match_pid(procs@, name@) == first_match_pid(procs@.skip(i as int), name@),
        decreases procs@.len() - i,
    {
        let lower = lowercase(procs[i].name.as_str());
        let found = contains_str(lower.as_str(), name);
        proof {
            assert(procs@.skip(i as int)[0] == procs@[i as int]);
            assert(procs@.skip(i as int).drop_first() =~= procs@.skip(i + 1));
        }
        if found {
            return Some(procs[i].pid);
        }
        i = i + 1;
    }
    proof {
        assert(procs@.skip(procs@.len() as int) =~= Seq::<ProcEntry>::empty());
    }
    None
}

/// The socket is a TCP connection owned (possibly among others) by `pid`.
pub open spec fn sock_matches(e: SockEntry, pid: u32) -> bool {
    e.tcp && e.pids@.contains(pid)
}

/// Remote address of the first socket entry owned by `pid`, in table
/// order.
pub open spec fn first_remote_addr(socks: Seq<SockEntry>, pid: u32) -> Option<Seq<char>>
    decreases socks.len(),
{
    if socks.len() == 0 {
        None
    } else if sock_matches(socks[0], pid) {
        Some(socks[0].remote_addr@)
    } else {
        first_remote_addr(socks.drop_first(), pid)
    }
}

fn pids_contain(v: &Vec<u32>, x: u32) -> (r: bool)
    ensures
        r == v@.contains(x),
{
    let mut i: usize = 0;
    while i < v.len()
        invariant
            i <= v@.len(),
            forall|k: int| 0 <= k < i ==> v@[k] != x,
        decreases v@.len() - i,
    {
        if v[i] == x {
            return true;
        }
        i = i + 1;
    }
    false
}

/// Scans the socket-table snapshot for the first TCP entry owned by
/// `pid`, and returns its remote address; None when the process holds no
/// matching connection.
pub fn find_game_servers(socks: &Vec<SockEntry>, pid: u32) -> (r: Option<String>)
    ensures
        r is None <==> first_remote_addr(socks@, pid) is None,
        r matches Some(s) ==> Some(s@) == first_remote_addr(socks@, pid),
{
    proof {
        assert(socks@.skip(0) =~= socks@);
    }
    let mut i: usize = 0;
    while i < socks.len()
        invariant
            i <= socks@.len(),
            first_remote_addr(socks@, pid) == first_remote_addr(socks@.skip(i as int), pid),
        decreases socks@.len() - i,
    {
        let owned = pids_contain(&socks[i].pids, pid);
        proof {
            assert(socks@.skip(i as int)[0] == socks@[i as int]);
            assert(socks@.skip(i as int).drop_first() =~= socks@.skip(i + 1));
        }
        if socks[i].tcp && owned {
            return Some(socks[i].remote_addr.clone());
        }
        i = i + 1;
    }
    proof {
        assert(socks@.skip(socks@.len() as int) =~= Seq::<SockEntry>::empty());
    }
    None
}

} // verus!
