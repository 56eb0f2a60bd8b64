//! The built-in notes shell is a valid extension.

use vstd::prelude::*;
use crate::extension::capability::RuntimeCapability;
use crate::extension::kernel::baseline_manifest;
use crate::extension::manifest::capabilities_issue;
use crate::extension::manifest::capability_issue;
use crate::extension::manifest::declared;
use crate::extension::manifest::digit;
use crate::extension::manifest::dots_at;
use crate::extension::manifest::entrypoint_missing;
use crate::extension::manifest::id_char;
use crate::extension::manifest::manifest_issue;
use crate::extension::manifest::runtime_capabilities_issue;
use crate::extension::manifest::semver_triplet;
use crate::extension::manifest::separator;
use crate::extension::manifest::valid_extension_id;
use crate::text::blank;
use crate::text::canonical;
use crate::text::lemma_edges_keep;
use crate::text::trimmed;

verus! {

/// The id of the built-in notes shell is a well-formed id without
/// whitespace around it.
proof fn lemma_baseline_id()
    ensures
        !blank(baseline_manifest().id),
        canonical(baseline_manifest().id),
        valid_extension_id(baseline_manifest().id),
{
    reveal_strlit("builtin.notes.shell");
    let id = baseline_manifest().id;
    assert(id.len() == 19);
    assert(id.first() == 'b' && id.last() == 'l');
    lemma_edges_keep(id);
    assert forall|i: int| 0 <= i < id.len() implies id_char(#[trigger] id[i]) || separator(id[i]) by {
        if i == 0 {
        } else if i == 1 {
        } else if i == 2 {
        } else if i == 3 {
        } else if i == 4 {
        } else if i == 5 {
        } else if i == 6 {
        } else if i == 7 {
        } else if i == 8 {
        } else if i == 9 {
        } else if i == 10 {
        } else if i == 11 {
        } else if i == 12 {
        } else if i == 13 {
        } else if i == 14 {
        } else if i == 15 {
        } else if i == 16 {
        } else if i == 17 {
        } else {
        }
    }
    assert forall|i: int| 0 <= i < id.len() - 1 implies !(separator(#[trigger] id[i]) && separator(
        id[i + 1],
    )) by {
        if i == 7 {
            assert(id[8] == 'n');
        } else if i == 13 {
            assert(id[14] == 's');
        } else if i == 0 {
        } else if i == 1 {
        } else if i == 2 {
        } else if i == 3 {
        } else if i == 4 {
        } else if i == 5 {
        } else if i == 6 {
        } else if i == 8 {
        } else if i == 9 {
        } else if i == 10 {
        } else if i == 11 {
        } else if i == 12 {
        } else if i == 14 {
        } else if i == 15 {
        } else if i == 16 {
        } else {
        }
    }
}

/// The version of the built-in notes shell is a `major.minor.patch` version.
proof fn lemma_baseline_version()
    ensures
        !blank(baseline_manifest().version),
        semver_triplet(trimmed(baseline_manifest().version)),
{
    reveal_strlit("0.1.0");
    let v = baseline_manifest().version;
    assert(v.len() == 5);
    assert(v.first() == '0' && v.last() == '0');
    lemma_edges_keep(v);
    assert(v[1] == '.' && v[3] == '.');
    assert forall|i: int| 0 <= i < v.len() && i != 1 && i != 3 implies digit(#[trigger] v[i]) by {
        if i == 0 {
        } else if i == 2 {
        } else {
        }
    }
    assert(dots_at(v, 1, 3));
}

/// The built-in notes shell declares every entrypoint, none of them blank.
proof fn lemma_baseline_entrypoints()
    ensures
        !entrypoint_missing(baseline_manifest().entrypoints.init),
        !entrypoint_missing(baseline_manifest().entrypoints.dispose),
        !entrypoint_missing(baseline_manifest().entrypoints.health),
        !entrypoint_missing(baseline_manifest().entrypoints.command_action),
        !entrypoint_missing(baseline_manifest().entrypoints.input_parser),
        !entrypoint_missing(baseline_manifest().entrypoints.provider_spi),
        !entrypoint_missing(baseline_manifest().entrypoints.ui_slot),
{
    reveal_strlit("builtin.notes.init");
    reveal_strlit("builtin.notes.dispose");
    reveal_strlit("builtin.notes.health");
    reveal_strlit("builtin.notes.command.register");
    reveal_strlit("builtin.notes.parser.register");
    reveal_strlit("builtin.notes.provider.register");
    reveal_strlit("builtin.notes.ui_slot.register");
    let e = baseline_manifest().entrypoints;
    assert(e.init->0.len() == 18 && e.init->0.first() == 'b' && e.init->0.last() == 't');
    assert(e.dispose->0.len() == 21 && e.dispose->0.first() == 'b' && e.dispose->0.last() == 'e');
    assert(e.health->0.len() == 20 && e.health->0.first() == 'b' && e.health->0.last() == 'h');
    assert(e.command_action->0.len() == 30 && e.command_action->0.first() == 'b'
        && e.command_action->0.last() == 'r');
    assert(e.input_parser->0.len() == 29 && e.input_parser->0.first() == 'b'
        && e.input_parser->0.last() == 'r');
    assert(e.provider_spi->0.len() == 31 && e.provider_spi->0.first() == 'b'
        && e.provider_spi->0.last() == 'r');
    assert(e.ui_slot->0.len() == 30 && e.ui_slot->0.first() == 'b' && e.ui_slot->0.last() == 'r');
    lemma_edges_keep(e.init->0);
    lemma_edges_keep(e.dispose->0);
    lemma_edges_keep(e.health->0);
    lemma_edges_keep(e.command_action->0);
    lemma_edges_keep(e.input_parser->0);
    lemma_edges_keep(e.provider_spi->0);
    lemma_edges_keep(e.ui_slot->0);
}

/// Nothing is wrong with the capabilities of the built-in notes shell.
proof fn lemma_baseline_capabilities()
    ensures
        capabilities_issue(baseline_manifest(), 4) is None,
{
    reveal_strlit("command");
    reveal_strlit("parser");
    reveal_strlit("provider");
    reveal_strlit("ui_slot");
    let m = baseline_manifest();
    let c = m.capabilities;
    assert(c[0].len() == 7 && c[0].first() == 'c' && c[0].last() == 'd');
    assert(c[1].len() == 6 && c[1].first() == 'p' && c[1].last() == 'r');
    assert(c[2].len() == 8 && c[2].first() == 'p' && c[2].last() == 'r');
    assert(c[3].len() == 7 && c[3].first() == 'u' && c[3].last() == 't');
    lemma_edges_keep(c[0]);
    lemma_edges_keep(c[1]);
    lemma_edges_keep(c[2]);
    lemma_edges_keep(c[3]);
    lemma_baseline_entrypoints();
    assert(!c.take(0).contains(c[0]));
    assert(!c.take(1).contains(c[1])) by {
        if c.take(1).contains(c[1]) {
            let j = choose|j: int| 0 <= j < c.take(1).len() && c.take(1)[j] == c[1];
            assert(c.take(1)[j] == c[j]);
        }
    }
    assert(!c.take(2).contains(c[2])) by {
        if c.take(2).contains(c[2]) {
            let j = choose|j: int| 0 <= j < c.take(2).len() && c.take(2)[j] == c[2];
            assert(c.take(2)[j] == c[j]);
        }
    }
    assert(!c.take(3).contains(c[3])) by {
        if c.take(3).contains(c[3]) {
            let j = choose|j: int| 0 <= j < c.take(3).len() && c.take(3)[j] == c[3];
            assert(c.take(3)[j] == c[j]);
        }
    }
    assert(capability_issue(m, 0) is None);
    assert(capability_issue(m, 1) is None);
    assert(capability_issue(m, 2) is None);
    assert(capability_issue(m, 3) is None);
    assert(capabilities_issue(m, 0) is None);
    assert(capabilities_issue(m, 1) is None);
    assert(capabilities_issue(m, 2) is None);
    assert(capabilities_issue(m, 3) is None);
}

/// **The built-in notes shell is a valid extension.** Its manifest passes
/// validation, and it declares no runtime capability.
pub proof fn lemma_baseline_manifest_valid()
    ensures
        manifest_issue(baseline_manifest()) is None,
        declared(baseline_manifest()) == Seq::<RuntimeCapability>::empty(),
{
    let m = baseline_manifest();
    lemma_baseline_id();
    lemma_baseline_version();
    lemma_baseline_capabilities();
    lemma_baseline_entrypoints();
    assert(m.capabilities.len() == 4);
    assert(runtime_capabilities_issue(m, 0) is None);
    reveal_with_fuel(Seq::filter, 5);
    let all = seq![
        RuntimeCapability::Network,
        RuntimeCapability::File,
        RuntimeCapability::Notification,
        RuntimeCapability::Calendar,
    ];
    let a1 = all.drop_last();
    let a2 = a1.drop_last();
    let a3 = a2.drop_last();
    let a4 = a3.drop_last();
    assert(a4 =~= Seq::empty());
    assert(declared(m) =~= Seq::<RuntimeCapability>::empty());
}

} // verus!
