use vstd::prelude::*;
use vstd::string::StringExecFns;
use crate::fmt::{human, human_of};
use crate::scan::{clamp64, max_file, sum_sizes, total_size, FileEntry};

verus! {

/// `a + b`, saturating at `u64::MAX`.
pub open spec fn sat_add64(a: u64, b: u64) -> u64 {
    if a + b <= u64::MAX {
        (a + b) as u64
    } else {
        u64::MAX
    }
}

/// `a - b`, saturating at zero.
pub open spec fn sat_sub64(a: u64, b: u64) -> u64 {
    if a >= b {
        (a - b) as u64
    } else {
        0u64
    }
}

/// Everything a run needs to know: the four roots, the safety margin kept
/// free on each device, the streaming buffer size, and the verbosity flag.
#[derive(Clone, Debug)]
pub struct SwapConfig {
    pub a_root: String,
    pub b_root: String,
    pub a_dest: String,
    pub b_dest: String,
    pub reserve_bytes: u64,
    pub buffer_bytes: usize,
    pub verbose: bool,
}

/// The analyzer's answer: whether the swap can succeed at all, a report for
/// display, and how many bytes are missing on each device if it cannot.
#[derive(Clone, Debug)]
pub struct FeasibilityInfo {
    pub ok: bool,
    pub summary: String,
    pub deficit_c: u64,
    pub deficit_d: u64,
}

/// Free space device D can ultimately offer, once all of B has vacated it.
pub open spec fn d_max_spec(f_d0: u64, s_b: u64) -> u64 {
    sat_add64(f_d0, s_b)
}

/// Free space device C can ultimately offer, once all of A has vacated it.
pub open spec fn c_max_spec(f_c0: u64, s_a: u64) -> u64 {
    sat_add64(f_c0, s_a)
}

/// Bytes by which A overshoots D's ultimate capacity (0 when it fits).
pub open spec fn deficit_d_spec(s_a: u64, s_b: u64, f_d0: u64) -> u64 {
    sat_sub64(s_a, d_max_spec(f_d0, s_b))
}

/// Bytes by which B overshoots C's ultimate capacity (0 when it fits).
pub open spec fn deficit_c_spec(s_a: u64, s_b: u64, f_c0: u64) -> u64 {
    sat_sub64(s_b, c_max_spec(f_c0, s_a))
}

/// The aggregate and largest-file capacity conditions: both deficits are zero
/// and no single file exceeds its destination device's ultimate free space.
pub open spec fn feasible_spec(s_a: u64, s_b: u64, m_a: u64, m_b: u64, f_c0: u64, f_d0: u64) -> bool {
    &&& deficit_d_spec(s_a, s_b, f_d0) == 0
    &&& deficit_c_spec(s_a, s_b, f_c0) == 0
    &&& m_a <= d_max_spec(f_d0, s_b)
    &&& m_b <= c_max_spec(f_c0, s_a)
}

/// The quantity lines of the feasibility report.
pub open spec fn feas_header_spec(s_a: u64, s_b: u64, m_a: u64, m_b: u64, f_c0: u64, f_d0: u64, reserve: u64) -> Seq<char> {
    "=== Feasibility ===\nA_total: "@ + human_of(s_a) + "\nB_total: "@ + human_of(s_b)
        + "\nA_max_file: "@ + human_of(m_a) + "\nB_max_file: "@ + human_of(m_b)
        + "\nfree(C for B_dest): "@ + human_of(f_c0) + "\nfree(D for A_dest): "@ + human_of(f_d0)
        + "\nD_max_free = free_D + B_total = "@ + human_of(d_max_spec(f_d0, s_b))
        + "\nC_max_free = free_C + A_total = "@ + human_of(c_max_spec(f_c0, s_a))
        + "\nreserve: "@ + human_of(reserve) + "\n\n"@
}

/// The conclusion line of the feasibility report, in priority
/// order: aggregate deficit on D, aggregate deficit on C, largest A file,
/// largest B file, else feasible.
pub open spec fn feas_conclusion_spec(s_a: u64, s_b: u64, m_a: u64, m_b: u64, f_c0: u64, f_d0: u64) -> Seq<char> {
    if deficit_d_spec(s_a, s_b, f_d0) > 0 {
        "IMPOSSIBLE: D can never fit A (need +"@ + human_of(deficit_d_spec(s_a, s_b, f_d0))
            + " more free on D, or third storage)."@
    } else if deficit_c_spec(s_a, s_b, f_c0) > 0 {
        "IMPOSSIBLE: C can never fit B (need +"@ + human_of(deficit_c_spec(s_a, s_b, f_c0))
            + " more free on C, or third storage)."@
    } else if m_a > d_max_spec(f_d0, s_b) {
        "IMPOSSIBLE: A contains a file of "@ + human_of(m_a) + " that can never fit on D (D_max_free is "@
            + human_of(d_max_spec(f_d0, s_b)) + ")."@
    } else if m_b > c_max_spec(f_c0, s_a) {
        "IMPOSSIBLE: B contains a file of "@ + human_of(m_b) + " that can never fit on C (C_max_free is "@
            + human_of(c_max_spec(f_c0, s_a)) + ")."@
    } else {
        "OK: swap is feasible by capacity laws."@
    }
}

/// The whole feasibility report.
pub open spec fn feas_summary_spec(s_a: u64, s_b: u64, m_a: u64, m_b: u64, f_c0: u64, f_d0: u64, reserve: u64) -> Seq<char> {
    feas_header_spec(s_a, s_b, m_a, m_b, f_c0, f_d0, reserve) + feas_conclusion_spec(s_a, s_b, m_a, m_b, f_c0, f_d0)
}

/// What `feasibility_check` promises of its result, given the computed
/// aggregates: outcome flag, deficits and report text are all pinned.
pub open spec fn feas_info_matches(r: FeasibilityInfo, s_a: u64, s_b: u64, m_a: u64, m_b: u64, f_c0: u64, f_d0: u64, reserve: u64) -> bool {
    &&& r.ok == feasible_spec(s_a, s_b, m_a, m_b, f_c0, f_d0)
    &&& r.deficit_c == deficit_c_spec(s_a, s_b, f_c0)
    &&& r.deficit_d == deficit_d_spec(s_a, s_b, f_d0)
    &&& r.summary@ == feas_summary_spec(s_a, s_b, m_a, m_b, f_c0, f_d0, reserve)
}

/// Size of the head entry: with the scanner's descending order this is the
/// largest file of the tree, and 0 for an empty tree.
pub open spec fn head_size(s: Seq<FileEntry>) -> u64 {
    if s.len() == 0 {
        0u64
    } else {
        s[0].size
    }
}

/// `a + b`, saturating at `u64::MAX`.
pub fn sat_add(a: u64, b: u64) -> (r: u64)
    ensures
        r == sat_add64(a, b),
{
    if a <= u64::MAX - b {
        a + b
    } else {
        u64::MAX
    }
}

/// `a - b`, saturating at zero.
pub fn sat_sub(a: u64, b: u64) -> (r: u64)
    ensures
        r == sat_sub64(a, b),
{
    if a >= b {
        a - b
    } else {
        0
    }
}

/// Decides, from the two scanned trees and the two initial free-space
/// readings, whether the swap can possibly succeed, independent of move
/// order. Pure: touches no filesystem; the caller supplies the scans for
/// `cfg.a_root` and `cfg.b_root` and the free space at `cfg.b_dest` (device
/// C) and `cfg.a_dest` (device D).
pub fn feasibility_check(cfg: &SwapConfig, a_files: &Vec<FileEntry>, b_files: &Vec<FileEntry>, f_c0: u64, f_d0: u64) -> (r: FeasibilityInfo)
    ensures
        feas_info_matches(
            r,
            clamp64(sum_sizes(a_files@)),
            clamp64(sum_sizes(b_files@)),
            head_size(a_files@),
            head_size(b_files@),
            f_c0,
            f_d0,
            cfg.reserve_bytes,
        ),
{
    let s_a = total_size(a_files);
    let s_b = total_size(b_files);
    let m_a = max_file(a_files);
    let m_b = max_file(b_files);

    let d_max = sat_add(f_d0, s_b);
    let c_max = sat_add(f_c0, s_a);

    let deficit_d = sat_sub(s_a, d_max);
    let deficit_c = sat_sub(s_b, c_max);

    let mut out = String::from_str("=== Feasibility ===\nA_total: ");
    out.append(human(s_a).as_str());
    out.append("\nB_total: ");
    out.append(human(s_b).as_str());
    out.append("\nA_max_file: ");
    out.append(human(m_a).as_str());
    out.append("\nB_max_file: ");
    out.append(human(m_b).as_str());
    out.append("\nfree(C for B_dest): ");
    out.append(human(f_c0).as_str());
    out.append("\nfree(D for A_dest): ");
    out.append(human(f_d0).as_str());
    out.append("\nD_max_free = free_D + B_total = ");
    out.append(human(d_max).as_str());
    out.append("\nC_max_free = free_C + A_total = ");
    out.append(human(c_max).as_str());
    out.append("\nreserve: ");
    out.append(human(cfg.reserve_bytes).as_str());
    out.append("\n\n");

    let ok: bool;
    if deficit_d > 0 {
        ok = false;
        out.append("IMPOSSIBLE: D can never fit A (need +");
        out.append(human(deficit_d).as_str());
        out.append(" more free on D, or third storage).");
    } else if deficit_c > 0 {
        ok = false;
        out.append("IMPOSSIBLE: C can never fit B (need +");
        out.append(human(deficit_c).as_str());
        out.append(" more free on C, or third storage).");
    } else if m_a > d_max {
        ok = false;
        out.append("IMPOSSIBLE: A contains a file of ");
        out.append(human(m_a).as_str());
        out.append(" that can never fit on D (D_max_free is ");
        out.append(human(d_max).as_str());
        out.append(").");
    } else if m_b > c_max {
        ok = false;
        out.append("IMPOSSIBLE: B contains a file of ");
        out.append(human(m_b).as_str());
        out.append(" that can never fit on C (C_max_free is ");
        out.append(human(c_max).as_str());
        out.append(").");
    } else {
        ok = true;
        out.append("OK: swap is feasible by capacity laws.");
    }

    proof {
        assert(out@ =~= feas_summary_spec(s_a, s_b, m_a, m_b, f_c0, f_d0, cfg.reserve_bytes));
    }
    FeasibilityInfo { ok, summary: out, deficit_c, deficit_d }
}

/// Law: the analyzer is idempotent. Two results that each meet
/// `feasibility_check`'s contract for the same inputs agree on the outcome flag,
/// both deficits, and the report text.
pub proof fn lemma_feasibility_idempotent(r1: FeasibilityInfo, r2: FeasibilityInfo, s_a: u64, s_b: u64, m_a: u64, m_b: u64, f_c0: u64, f_d0: u64, reserve: u64)
    requires
        feas_info_matches(r1, s_a, s_b, m_a, m_b, f_c0, f_d0, reserve),
        feas_info_matches(r2, s_a, s_b, m_a, m_b, f_c0, f_d0, reserve),
    ensures
        r1.ok == r2.ok,
        r1.deficit_c == r2.deficit_c,
        r1.deficit_d == r2.deficit_d,
        r1.summary@ == r2.summary@,
{
}

} // verus!
