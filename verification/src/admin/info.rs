//! `INFO` in the plain layout.

use vstd::prelude::*;
use crate::admin::facts::{InfoFacts, Layout};
use crate::admin::resp;
use crate::admin::resp::RespWriter;
use crate::admin::sections;
use crate::config;
use crate::config::ConfigStore;
use crate::control::boards;
use crate::control::boards::{MemoryBoard, MemoryGauges};
use crate::text;

verus! {

/// Whether the arguments select a section: a bare command and a word for all
/// of them select every one, otherwise only its own name does.
pub open spec fn wants(argv: Seq<&[u8]>, section: int) -> bool {
    sections::asks_for_all(argv) || sections::asks_for(argv, section)
}

/// The selected sections, rendered.
pub open spec fn plain_text(
    argv: Seq<&[u8]>,
    f: InfoFacts,
    rows: Seq<config::ConfigRow>,
) -> Seq<char> {
    let layout = Layout::Plain;
    let t = Seq::<char>::empty();
    let t = if wants(argv, 0) {
        sections::server_body(t, f, layout)
    } else {
        t
    };
    let t = if wants(argv, 1) {
        sections::clients_body(t, f, layout, rows)
    } else {
        t
    };
    let t = if wants(argv, 2) {
        sections::memory_body(t, f, layout, rows)
    } else {
        t
    };
    let t = if wants(argv, 3) {
        sections::persistence_body(t, f, layout)
    } else {
        t
    };
    let t = if wants(argv, 4) {
        sections::tiering_body(t, f, layout)
    } else {
        t
    };
    let t = if wants(argv, 5) {
        sections::stats_body(t, f, layout)
    } else {
        t
    };
    let t = if wants(argv, 6) {
        sections::replication_body(t, f, layout)
    } else {
        t
    };
    let t = if wants(argv, 7) {
        sections::cpu_body(t, f)
    } else {
        t
    };
    let t = if wants(argv, 8) {
        sections::tripwires_body(t, f, layout)
    } else {
        t
    };
    if wants(argv, 9) {
        sections::keyspace_body(t, f, layout)
    } else {
        t
    }
}

fn wanted(argv: &[&[u8]], section: usize) -> (r: bool)
    requires
        section < sections::EVERYTHING,
    ensures
        r == wants(argv@, section as int),
{
    sections::asks_all(argv) || sections::asks(argv, section)
}

/// `INFO [section ...]` in the plain layout: a bare command, or one that says
/// so, gives every section; otherwise only those it names, and a name this
/// layout lacks selects nothing.
#[verifier::rlimit(60)]
pub fn info(argv: &[&[u8]], f: &InfoFacts, config: &ConfigStore, w: &mut RespWriter)
    requires
        f.wf(),
    ensures
        final(w)@ == old(w)@ + resp::verbatim_reply(
            old(w).proto,
            sections::trimmed(text::utf8(plain_text(argv@, *f, config@))),
        ),
        final(w).proto == old(w).proto,
{
    let layout = Layout::Plain;
    let mut text = text::owned("");
    proof {
        reveal_strlit("");
        assert(text@ =~= Seq::empty());
    }
    if wanted(argv, 0) {
        sections::server_section(&mut text, f, layout);
    }
    if wanted(argv, 1) {
        sections::clients_section(&mut text, f, layout, config);
    }
    if wanted(argv, 2) {
        sections::memory_section(&mut text, f, layout, config);
    }
    if wanted(argv, 3) {
        sections::persistence_section(&mut text, f, layout);
    }
    if wanted(argv, 4) {
        sections::tiering_section(&mut text, f, layout);
    }
    if wanted(argv, 5) {
        sections::stats_section(&mut text, f, layout);
    }
    if wanted(argv, 6) {
        sections::replication_section(&mut text, f, layout);
    }
    if wanted(argv, 7) {
        sections::cpu_section(&mut text, f);
    }
    if wanted(argv, 8) {
        sections::tripwires_section(&mut text, f, layout);
    }
    if wanted(argv, 9) {
        sections::keyspace_section(&mut text, f, layout);
    }
    w.verbatim(sections::finish(text.as_str()).as_slice());
}

/// Publishes the serving cell's gauges and folds the board; without a board
/// the gauges stand for this cell alone. Whether the fold is the node's, and
/// the fold.
pub fn publish_and_total_memory(
    board: Option<&mut MemoryBoard>,
    cell: u16,
    local: MemoryGauges,
) -> (r: (bool, MemoryGauges))
    requires
        board matches Some(b) ==> cell < b@.len() && boards::sums_fit(
            boards::memory_sums(b@.update(cell as int, local)),
        ),
    ensures
        board is None ==> r == (false, local),
        board matches Some(b) ==> r.0 && final(b)@ == b@.update(cell as int, local)
            && boards::folds(r.1, boards::memory_sums(b@.update(cell as int, local))),
{
    match board {
        None => (false, local),
        Some(b) => {
            b.slot_mut(cell).publish(local);
            (true, b.totals())
        },
    }
}

/// A bare command, and a word for all sections at any position, give every
/// section, whatever else is named.
pub proof fn law_all_is_everything(argv: Seq<&[u8]>, at: int, section: int)
    requires
        argv.len() == 1 || 1 <= at < argv.len() && sections::named(argv[at]@) is Everything,
    ensures
        wants(argv, section),
{
}

/// Unknown names select nothing: a command that names only sections this
/// layout lacks is answered with an empty body.
pub proof fn law_unknown_sections_are_empty(
    argv: Seq<&[u8]>,
    f: InfoFacts,
    rows: Seq<config::ConfigRow>,
)
    requires
        argv.len() > 1,
        forall|i: int|
            1 <= i < argv.len() ==> match sections::named((#[trigger] argv[i])@) {
                sections::Named::Everything => false,
                sections::Named::Section(k) => k >= 10,
                sections::Named::Unknown => true,
            },
    ensures
        sections::trimmed(text::utf8(plain_text(argv, f, rows))) == Seq::<u8>::empty(),
{
    assert forall|k: int| 0 <= k < 10 implies !wants(argv, k) by {}
    assert(plain_text(argv, f, rows) =~= Seq::empty());
    assert(text::utf8(Seq::empty()) =~= Seq::<u8>::empty());
    assert(!text::has_suffix(Seq::<u8>::empty(), seq![13u8, 10u8, 13u8, 10u8]));
}

} // verus!
