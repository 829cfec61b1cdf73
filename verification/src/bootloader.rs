//! Waiting for a HalfKay device to appear after a soft reboot: the
//! snapshot-diff decision.  The caller polls enumeration and hands
//! each observation to `diff_new_halfkay`.

use vstd::prelude::*;

verus! {

/// Why the wait for a new HalfKay device failed.
#[derive(Debug)]
pub enum WaitHalfKayError {
    /// Listing HalfKay devices failed.
    ListFailed { message: String },
    /// More than one new HalfKay device appeared at once.
    Ambiguous { count: usize },
    /// No new HalfKay device appeared within the timeout.
    Timeout,
}

/// The paths in `now` that are not in `before`, in order.
pub open spec fn new_paths(before: Seq<Seq<char>>, now: Seq<Seq<char>>) -> Seq<Seq<char>> {
    now.filter(|p: Seq<char>| !before.contains(p))
}

/// Decides one poll of the snapshot diff: exactly one new path is the
/// answer; none means keep waiting; more than one is ambiguous and
/// refused rather than guessed at.
pub fn diff_new_halfkay(before: &Vec<String>, now: &Vec<String>) -> (r: Result<
    Option<String>,
    WaitHalfKayError,
>)
    ensures
        ({
            let fresh = new_paths(before@.map_values(|s: String| s@), now@.map_values(|s: String| s@));
            match r {
                Ok(Some(p)) => fresh.len() == 1 && p@ == fresh[0],
                Ok(None) => fresh.len() == 0,
                Err(WaitHalfKayError::Ambiguous { count }) => fresh.len() > 1 && count
                    == fresh.len(),
                Err(_) => false,
            }
        }),
{
    let ghost bv = before@.map_values(|s: String| s@);
    let ghost nv = now@.map_values(|s: String| s@);
    let ghost pred = |p: Seq<char>| !bv.contains(p);
    let n = now.len();
    let mut fresh: Vec<String> = Vec::new();
    let mut i: usize = 0;
    proof {
        reveal(Seq::filter);
        assert(nv.take(0) =~= Seq::<Seq<char>>::empty());
        assert(fresh@.map_values(|s: String| s@) =~= nv.take(0).filter(pred));
    }
    while i < n
        invariant
            0 <= i <= n,
            n == now@.len(),
            bv == before@.map_values(|s: String| s@),
            nv == now@.map_values(|s: String| s@),
            pred == (|p: Seq<char>| !bv.contains(p)),
            fresh@.map_values(|s: String| s@) =~= nv.take(i as int).filter(pred),
        decreases n - i,
    {
        let p = &now[i];
        let mut found = false;
        let bn = before.len();
        let mut j: usize = 0;
        while j < bn
            invariant
                0 <= j <= bn,
                bn == before@.len(),
                0 <= i < now@.len(),
                bv == before@.map_values(|s: String| s@),
                nv == now@.map_values(|s: String| s@),
                found == exists|k: int| 0 <= k < j && (#[trigger] bv[k]) == nv[i as int],
            decreases bn - j,
        {
            if before[j] == now[i] {
                assert(bv[j as int] == nv[i as int]);
                found = true;
            }
            j = j + 1;
        }
        proof {
            if found {
                assert(bv.contains(nv[i as int]));
            } else {
                assert(!bv.contains(nv[i as int])) by {
                    if bv.contains(nv[i as int]) {
                        let k = choose|k: int| 0 <= k < bv.len() && bv[k] == nv[i as int];
                        assert(false);
                    }
                }
            }
            reveal(Seq::filter);
            assert(nv.take(i + 1).drop_last() =~= nv.take(i as int));
            assert(nv.take(i + 1).last() == nv[i as int]);
        }
        if !found {
            let q = now[i].clone();
            fresh.push(q);
        }
        assert(fresh@.map_values(|s: String| s@) =~= nv.take(i + 1).filter(pred));
        i = i + 1;
    }
    proof {
        assert(nv.take(n as int) =~= nv);
    }
    if fresh.len() == 1 {
        let mut fresh = fresh;
        let p = fresh.remove(0);
        assert(p@ == new_paths(bv, nv)[0]);
        return Ok(Some(p));
    }
    if fresh.len() > 1 {
        return Err(WaitHalfKayError::Ambiguous { count: fresh.len() });
    }
    Ok(None)
}


impl WaitHalfKayError {
    /// The error as text.
    pub open spec fn spec_message(&self) -> Seq<char> {
        match self {
            WaitHalfKayError::ListFailed { message } => "HalfKay list failed: "@ + message@,
            WaitHalfKayError::Ambiguous { count } => "multiple new HalfKay devices appeared ("@
                + crate::strutil::u64_chars(*count as u64) + ")"@,
            WaitHalfKayError::Timeout => "HalfKay did not appear after soft reboot"@,
        }
    }

    /// Renders the error as text.
    pub fn message(&self) -> (r: String)
        ensures
            r@ == self.spec_message(),
    {
        match self {
            WaitHalfKayError::ListFailed { message } => {
                let mut s = "HalfKay list failed: ".to_owned();
                s.append(message.as_str());
                s
            },
            WaitHalfKayError::Ambiguous { count } => {
                let mut s = "multiple new HalfKay devices appeared (".to_owned();
                s.append(crate::strutil::usize_to_string(*count).as_str());
                s.append(")");
                s
            },
            WaitHalfKayError::Timeout => "HalfKay did not appear after soft reboot".to_owned(),
        }
    }
}


} // verus!
