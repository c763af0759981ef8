//! Recovering a disk's driver-assigned statistics module name from the
//! device-tree path that its device node links to and the system instance
//! map.

use vstd::prelude::*;
use crate::text::{
    pieces, occurs_in, views, chars_of, string_of, split_chars, contains_chars,
    lemma_pieces_nonempty,
};

verus! {

/// The device-tree address of a disk: the bus or controller segment that
/// holds it and its instance id.
pub struct PhysicalAddress {
    pub bus: String,
    pub instance: String,
}

/// The address of a symbolic-link target: its second-to-last '/'-separated
/// segment, and the part before the first ':' of its last segment. Targets
/// with fewer than two segments have none.
pub open spec fn address_of(target: Seq<char>) -> Option<(Seq<char>, Seq<char>)> {
    let segs = pieces(target, '/');
    if segs.len() < 2 {
        None
    } else {
        Some((segs[segs.len() - 2], pieces(segs[segs.len() - 1], ':')[0]))
    }
}

/// Decomposes the target of a device node's symbolic link into its
/// physical address.
pub fn physical_address(target: &str) -> (r: Option<PhysicalAddress>)
    ensures
        r matches Some(a) ==> address_of(target@) == Some((a.bus@, a.instance@)),
        r is None ==> address_of(target@) is None,
{
    let t = chars_of(target);
    let segs = split_chars(&t, '/');
    let n = segs.len();
    proof {
        assert(views(segs@).len() == segs@.len());
    }
    if n < 2 {
        return None;
    }
    let parts = split_chars(&segs[n - 1], ':');
    proof {
        assert(views(segs@)[n - 1] == segs@[n - 1]@);
        assert(views(segs@)[n - 2] == segs@[n - 2]@);
        lemma_pieces_nonempty(segs@[n - 1]@, ':');
        assert(views(parts@).len() == parts@.len());
        assert(views(parts@)[0] == parts@[0]@);
    }
    let bus = string_of(&segs[n - 2]);
    let instance = string_of(&parts[0]);
    Some(PhysicalAddress { bus, instance })
}

/// A line of the instance map names the address when it contains both the
/// instance id and the bus segment.
pub open spec fn line_matches(line: Seq<char>, bus: Seq<char>, instance: Seq<char>) -> bool {
    occurs_in(instance, line) && occurs_in(bus, line)
}

/// The index of the last line that names the address.
pub open spec fn last_match(lines: Seq<Seq<char>>, bus: Seq<char>, instance: Seq<char>) -> Option<int>
    decreases lines.len(),
{
    if lines.len() == 0 {
        None
    } else if line_matches(lines.last(), bus, instance) {
        Some(lines.len() - 1)
    } else {
        last_match(lines.drop_last(), bus, instance)
    }
}

/// The whitespace-separated tokens of an instance-map line: its
/// space-separated pieces, empty ones left out.
pub open spec fn tokens(line: Seq<char>) -> Seq<Seq<char>> {
    pieces(line, ' ').filter(|p: Seq<char>| p.len() > 0)
}

/// The statistics module named by an instance-map line: "sd" followed by
/// the line's second-to-last token, the driver instance number. A line with
/// fewer than two tokens names none.
pub open spec fn module_of_line(line: Seq<char>) -> Option<Seq<char>> {
    let toks = tokens(line);
    if toks.len() < 2 {
        None
    } else {
        Some(seq!['s', 'd'] + toks[toks.len() - 2])
    }
}

/// The module that the instance map text gives for the address: the one
/// named by the last matching line.
pub open spec fn resolve(map_text: Seq<char>, bus: Seq<char>, instance: Seq<char>) -> Option<Seq<char>> {
    let lines = pieces(map_text, '\n');
    match last_match(lines, bus, instance) {
        Some(k) => module_of_line(lines[k]),
        None => None,
    }
}

proof fn lemma_last_match_bound(lines: Seq<Seq<char>>, bus: Seq<char>, instance: Seq<char>)
    ensures
        last_match(lines, bus, instance) matches Some(k) ==> 0 <= k < lines.len(),
    decreases lines.len(),
{
    if lines.len() > 0 {
        lemma_last_match_bound(lines.drop_last(), bus, instance);
    }
}

proof fn lemma_last_match_step(lines: Seq<Seq<char>>, i: int, bus: Seq<char>, instance: Seq<char>)
    requires
        0 <= i < lines.len(),
    ensures
        last_match(lines.take(i + 1), bus, instance) == if line_matches(lines[i], bus, instance) {
            Some(i)
        } else {
            last_match(lines.take(i), bus, instance)
        },
{
    assert(lines.take(i + 1).drop_last() =~= lines.take(i));
}

proof fn lemma_last_match_after(lines: Seq<Seq<char>>, j: int, bus: Seq<char>, instance: Seq<char>)
    requires
        0 <= j < lines.len(),
        line_matches(lines[j], bus, instance),
        forall|k: int| j < k < lines.len() ==> !line_matches(#[trigger] lines[k], bus, instance),
    ensures
        last_match(lines, bus, instance) == Some(j),
    decreases lines.len(),
{
    if j < lines.len() - 1 {
        let shorter = lines.drop_last();
        assert forall|k: int| j < k < shorter.len() implies !line_matches(#[trigger] shorter[k], bus, instance) by {
            assert(shorter[k] == lines[k]);
        }
        lemma_last_match_after(shorter, j, bus, instance);
    }
}

/// When several lines of the instance map name an address, the last of them
/// decides: a matching line followed only by lines that do not match gives
/// the module, whatever the lines before it say.
pub proof fn law_last_matching_line_wins(map_text: Seq<char>, bus: Seq<char>, instance: Seq<char>, j: int)
    requires
        0 <= j < pieces(map_text, '\n').len(),
        line_matches(pieces(map_text, '\n')[j], bus, instance),
        forall|k: int|
            j < k < pieces(map_text, '\n').len() ==> !line_matches(
                #[trigger] pieces(map_text, '\n')[k],
                bus,
                instance,
            ),
    ensures
        resolve(map_text, bus, instance) == module_of_line(pieces(map_text, '\n')[j]),
{
    lemma_last_match_after(pieces(map_text, '\n'), j, bus, instance);
}

/// The last two tokens among the first `i` pieces, as indices of pieces.
spec fn last_two_ok(ps: Seq<Seq<char>>, i: int, last: Option<usize>, prev: Option<usize>) -> bool {
    let f = ps.take(i).filter(|p: Seq<char>| p.len() > 0);
    &&& (f.len() == 0 <==> last is None)
    &&& (f.len() < 2 <==> prev is None)
    &&& (last matches Some(k) ==> k < i && ps[k as int] == f[f.len() - 1])
    &&& (prev matches Some(k) ==> k < i && ps[k as int] == f[f.len() - 2])
}

/// The statistics module named by one instance-map line.
fn module_of(line: &Vec<char>) -> (r: Option<String>)
    ensures
        r matches Some(m) ==> module_of_line(line@) == Some(m@),
        r is None ==> module_of_line(line@) is None,
{
    let toks = split_chars(line, ' ');
    let ghost ps = views(toks@);
    let mut last: Option<usize> = None;
    let mut prev: Option<usize> = None;
    let mut i: usize = 0;
    while i < toks.len()
        invariant
            i <= toks.len(),
            ps == views(toks@),
            ps.len() == toks@.len(),
            last_two_ok(ps, i as int, last, prev),
        decreases toks.len() - i,
    {
        proof {
            let pred = |p: Seq<char>| p.len() > 0;
            assert(ps.take(i + 1).drop_last() =~= ps.take(i as int));
            assert(ps.take(i + 1).last() == ps[i as int]);
            reveal(Seq::filter);
            assert(ps[i as int] == toks@[i as int]@);
        }
        if toks[i].len() > 0 {
            prev = last;
            last = Some(i);
        }
        i += 1;
    }
    proof {
        assert(ps.take(toks.len() as int) =~= ps);
    }
    match prev {
        None => None,
        Some(k) => {
            let tok = &toks[k];
            let mut name: Vec<char> = vec!['s', 'd'];
            let mut j: usize = 0;
            while j < tok.len()
                invariant
                    j <= tok.len(),
                    name@ == seq!['s', 'd'] + tok@.take(j as int),
                decreases tok.len() - j,
            {
                name.push(tok[j]);
                j += 1;
                assert(name@ =~= seq!['s', 'd'] + tok@.take(j as int));
            }
            proof {
                assert(tok@.take(tok.len() as int) =~= tok@);
                assert(ps[k as int] == tok@);
            }
            Some(string_of(&name))
        },
    }
}

/// Finds the statistics module of the disk at `addr` in the instance map
/// text: the last line that contains both the instance id and the bus
/// segment decides; `None` when no line does.
pub fn resolve_module(map_text: &str, addr: &PhysicalAddress) -> (r: Option<String>)
    ensures
        r matches Some(m) ==> resolve(map_text@, addr.bus@, addr.instance@) == Some(m@),
        r is None ==> resolve(map_text@, addr.bus@, addr.instance@) is None,
{
    let text = chars_of(map_text);
    let lines = split_chars(&text, '\n');
    let bus = chars_of(addr.bus.as_str());
    let inst = chars_of(addr.instance.as_str());
    let ghost lv = views(lines@);
    let mut found: Option<usize> = None;
    let mut i: usize = 0;
    while i < lines.len()
        invariant
            i <= lines.len(),
            lv == views(lines@),
            lv.len() == lines@.len(),
            match found {
                Some(k) => last_match(lv.take(i as int), bus@, inst@) == Some(k as int),
                None => last_match(lv.take(i as int), bus@, inst@) is None,
            },
        decreases lines.len() - i,
    {
        proof {
            lemma_last_match_step(lv, i as int, bus@, inst@);
            assert(lv[i as int] == lines@[i as int]@);
        }
        if contains_chars(&lines[i], &inst) && contains_chars(&lines[i], &bus) {
            found = Some(i);
        }
        i += 1;
    }
    proof {
        assert(lv.take(lines.len() as int) =~= lv);
        lemma_last_match_bound(lv, bus@, inst@);
    }
    match found {
        Some(k) => {
            proof {
                assert(lv[k as int] == lines@[k as int]@);
            }
            module_of(&lines[k])
        },
        None => None,
    }
}

} // verus!
