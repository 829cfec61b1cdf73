//! The target model: a device already in HalfKay bootloader mode, or a
//! PJRC USB serial port that can be coerced into one, with the
//! deterministic ordering that discovery presents.

use vstd::prelude::*;

use vstd::multiset::Multiset;

use crate::strutil;
use crate::teensy41;

verus! {

broadcast use vstd::seq_lib::group_to_multiset_ensures, vstd::multiset::group_multiset_axioms;

/// PJRC vendor id shared by both target kinds.
pub const PJRC_VID: u16 = 0x16C0;

/// Which arm a target is.
#[derive(Debug, Clone, Copy, PartialEq, Eq, Structural)]
pub enum TargetKind {
    HalfKay,
    Serial,
}

/// A device already in HalfKay bootloader mode, identified by its HID
/// enumeration path.
#[derive(Debug, Clone, PartialEq, Eq)]
pub struct HalfKayTarget {
    pub vid: u16,
    pub pid: u16,
    pub path: String,
}

/// An application-mode device reachable through its USB serial port.
#[derive(Debug, Clone, PartialEq, Eq)]
pub struct SerialTarget {
    pub port_name: String,
    pub vid: u16,
    pub pid: u16,
    pub serial_number: Option<String>,
    pub manufacturer: Option<String>,
    pub product: Option<String>,
}

/// A flash target: one of the two arms.
#[derive(Debug, Clone, PartialEq, Eq)]
pub enum Target {
    HalfKay(HalfKayTarget),
    Serial(SerialTarget),
}

/// HalfKay targets sort before Serial targets.
pub open spec fn kind_rank(k: TargetKind) -> int {
    match k {
        TargetKind::HalfKay => 0,
        TargetKind::Serial => 1,
    }
}

impl Target {
    /// The arm of this target.
    pub open spec fn spec_kind(&self) -> TargetKind {
        match self {
            Target::HalfKay(_) => TargetKind::HalfKay,
            Target::Serial(_) => TargetKind::Serial,
        }
    }

    /// The path or port name that identifies the target within its arm.
    pub open spec fn spec_key(&self) -> Seq<char> {
        match self {
            Target::HalfKay(t) => t.path@,
            Target::Serial(t) => t.port_name@,
        }
    }

    /// The stable identifier: `halfkay:<path>` or `serial:<port>`.
    pub open spec fn spec_id(&self) -> Seq<char> {
        match self {
            Target::HalfKay(t) => "halfkay:"@ + t.path@,
            Target::Serial(t) => "serial:"@ + t.port_name@,
        }
    }

    /// The arm of this target.
    pub fn kind(&self) -> (k: TargetKind)
        ensures
            k == self.spec_kind(),
    {
        match self {
            Target::HalfKay(_) => TargetKind::HalfKay,
            Target::Serial(_) => TargetKind::Serial,
        }
    }

    /// The stable identifier: `halfkay:<path>` or `serial:<port>`.
    pub fn id(&self) -> (r: String)
        ensures
            r@ == self.spec_id(),
    {
        match self {
            Target::HalfKay(t) => {
                let mut s = "halfkay:".to_owned();
                s.append(t.path.as_str());
                s
            },
            Target::Serial(t) => {
                let mut s = "serial:".to_owned();
                s.append(t.port_name.as_str());
                s
            },
        }
    }
}

/// The discovery order: by kind, HalfKay first, then lexicographically
/// by path or port name.
pub open spec fn target_le(a: Target, b: Target) -> bool {
    kind_rank(a.spec_kind()) < kind_rank(b.spec_kind()) || (kind_rank(a.spec_kind()) == kind_rank(
        b.spec_kind(),
    ) && strutil::seq_le(a.spec_key(), b.spec_key()))
}

/// Is `s` sorted in the discovery order?
pub open spec fn targets_sorted(s: Seq<Target>) -> bool {
    forall|i: int, j: int| 0 <= i < j < s.len() ==> target_le(#[trigger] s[i], #[trigger] s[j])
}

/// The discovery order is total.
proof fn lemma_target_le_total(a: Target, b: Target)
    ensures
        target_le(a, b) || target_le(b, a),
{
    strutil::lemma_seq_lt_total(a.spec_key(), b.spec_key());
}

/// The discovery order is transitive.
proof fn lemma_target_le_trans(a: Target, b: Target, c: Target)
    requires
        target_le(a, b),
        target_le(b, c),
    ensures
        target_le(a, c),
{
    if kind_rank(a.spec_kind()) == kind_rank(b.spec_kind()) && kind_rank(b.spec_kind())
        == kind_rank(c.spec_kind()) {
        if strutil::seq_lt(a.spec_key(), b.spec_key()) && strutil::seq_lt(
            b.spec_key(),
            c.spec_key(),
        ) {
            strutil::lemma_seq_lt_trans(a.spec_key(), b.spec_key(), c.spec_key());
        }
    }
}

/// Compares two targets in the discovery order.
fn target_le_exec(a: &Target, b: &Target) -> (r: bool)
    ensures
        r == target_le(*a, *b),
{
    let ra: u8 = match a {
        Target::HalfKay(_) => 0,
        Target::Serial(_) => 1,
    };
    let rb: u8 = match b {
        Target::HalfKay(_) => 0,
        Target::Serial(_) => 1,
    };
    if ra != rb {
        return ra < rb;
    }
    let ka: &str = match a {
        Target::HalfKay(t) => t.path.as_str(),
        Target::Serial(t) => t.port_name.as_str(),
    };
    let kb: &str = match b {
        Target::HalfKay(t) => t.path.as_str(),
        Target::Serial(t) => t.port_name.as_str(),
    };
    if strutil::str_lt(ka, kb) {
        true
    } else if strutil::str_lt(kb, ka) {
        false
    } else {
        proof {
            strutil::lemma_seq_lt_total(ka@, kb@);
        }
        true
    }
}

/// Sorts targets into the discovery order by insertion.
pub fn sort_targets(targets: Vec<Target>) -> (r: Vec<Target>)
    ensures
        targets_sorted(r@),
        r@.to_multiset() == targets@.to_multiset(),
{
    let mut rest = targets;
    let ghost orig = rest@;
    let mut out: Vec<Target> = Vec::new();
    while rest.len() > 0
        invariant
            targets_sorted(out@),
            out@.to_multiset().add(rest@.to_multiset()) == orig.to_multiset(),
        decreases rest@.len(),
    {
        let ghost rest0 = rest@;
        let x = rest.remove(0);
        proof {
            assert(x == rest0[0]);
            assert(rest0.remove(0).to_multiset() =~= rest0.to_multiset().remove(rest0[0]));
            assert(rest@.to_multiset() == rest0.to_multiset().remove(x));
            assert(rest0.contains(x)) by {
                assert(rest0[0] == x);
            }
            assert(rest0.to_multiset().count(x) > 0);
        }
        let m = out.len();
        let mut pos: usize = 0;
        loop
            invariant
                0 <= pos <= m,
                m == out@.len(),
                targets_sorted(out@),
                forall|k: int| 0 <= k < pos ==> target_le(#[trigger] out@[k], x),
            ensures
                0 <= pos <= m,
                m == out@.len(),
                forall|k: int| 0 <= k < pos ==> target_le(#[trigger] out@[k], x),
                pos < m ==> !target_le(out@[pos as int], x),
            decreases m - pos,
        {
            if pos >= m {
                break;
            }
            if !target_le_exec(&out[pos], &x) {
                break;
            }
            pos = pos + 1;
        }
        proof {
            if pos < out@.len() {
                lemma_target_le_total(out@[pos as int], x);
            }
        }
        out.insert(pos, x);
        proof {
            let s = out@;
            assert forall|p: int, q: int| 0 <= p < q < s.len() implies target_le(
                #[trigger] s[p],
                #[trigger] s[q],
            ) by {
                let prev = s.remove(pos as int);
                if p < pos && q == pos {
                } else if p == pos && q > pos {
                    if pos < prev.len() {
                        if q == pos + 1 {
                        } else {
                            lemma_target_le_trans(s[p], prev[pos as int], s[q]);
                        }
                    }
                } else {
                }
            }
            assert(out@.to_multiset().add(rest@.to_multiset()) =~= orig.to_multiset());
        }
    }
    proof {
        assert(rest@.to_multiset() =~= Multiset::<Target>::empty());
        assert(out@.to_multiset() =~= orig.to_multiset());
    }
    out
}

/// Builds the discovery list from raw enumeration snapshots: every
/// HalfKay HID device, and every serial port whose USB descriptor
/// reports the PJRC vendor, sorted into the discovery order.
pub fn discover_from_snapshots(hids: Vec<HalfKayTarget>, serials: Vec<SerialTarget>) -> (r: Vec<
    Target,
>)
    ensures
        targets_sorted(r@),
        r@.to_multiset() == (hids@.map_values(|h: HalfKayTarget| Target::HalfKay(h))
            + serials@.filter(|s: SerialTarget| s.vid == PJRC_VID).map_values(
            |s: SerialTarget| Target::Serial(s),
        )).to_multiset(),
{
    let ghost hseq = hids@.map_values(|h: HalfKayTarget| Target::HalfKay(h));
    let ghost sseq = serials@.filter(|s: SerialTarget| s.vid == PJRC_VID).map_values(
        |s: SerialTarget| Target::Serial(s),
    );
    let ghost hall = hids@;
    let ghost sall = serials@;
    let mut raw: Vec<Target> = Vec::new();
    let mut hrest = hids;
    while hrest.len() > 0
        invariant
            hseq == hall.map_values(|h: HalfKayTarget| Target::HalfKay(h)),
            hrest@.len() <= hall.len(),
            hrest@ == hall.skip(hall.len() - hrest@.len()),
            raw@ =~= hseq.take(hall.len() - hrest@.len()),
        decreases hrest@.len(),
    {
        let ghost k = hall.len() - hrest@.len();
        let h = hrest.remove(0);
        proof {
            assert(h == hall.skip(k)[0]);
            assert(h == hall[k]);
            assert(hrest@ =~= hall.skip(k + 1));
        }
        raw.push(Target::HalfKay(h));
        assert(raw@ =~= hseq.take(k + 1));
    }
    proof {
        assert(raw@ =~= hseq);
    }
    let mut srest = serials;
    proof {
        reveal(Seq::filter);
        assert(sall.take(0) =~= Seq::<SerialTarget>::empty());
    }
    while srest.len() > 0
        invariant
            hseq == hall.map_values(|h: HalfKayTarget| Target::HalfKay(h)),
            srest@.len() <= sall.len(),
            srest@ == sall.skip(sall.len() - srest@.len()),
            raw@ =~= hseq + sall.take(sall.len() - srest@.len()).filter(
                |s: SerialTarget| s.vid == PJRC_VID,
            ).map_values(|s: SerialTarget| Target::Serial(s)),
        decreases srest@.len(),
    {
        let ghost k = sall.len() - srest@.len();
        let s = srest.remove(0);
        proof {
            assert(s == sall.skip(k)[0]);
            assert(s == sall[k]);
            assert(srest@ =~= sall.skip(k + 1));
            reveal(Seq::filter);
            assert(sall.take(k + 1).drop_last() =~= sall.take(k));
            assert(sall.take(k + 1).last() == sall[k]);
        }
        if s.vid == PJRC_VID {
            raw.push(Target::Serial(s));
            assert(raw@ =~= hseq + sall.take(k + 1).filter(
                |s: SerialTarget| s.vid == PJRC_VID,
            ).map_values(|s: SerialTarget| Target::Serial(s)));
        } else {
            assert(raw@ =~= hseq + sall.take(k + 1).filter(
                |s: SerialTarget| s.vid == PJRC_VID,
            ).map_values(|s: SerialTarget| Target::Serial(s)));
        }
    }
    proof {
        assert(sall.take(sall.len() as int) =~= sall);
        assert(raw@ =~= hseq + sseq);
    }
    sort_targets(raw)
}

} // verus!
