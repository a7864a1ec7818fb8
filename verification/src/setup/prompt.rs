//! The serial devices offered for SLCAN adapters.
use vstd::prelude::*;

use crate::text::{chars_of, has_prefix, sort_texts, starts_with_chars, text_order, views_of};

verus! {

/// A device name of a USB serial adapter: `ttyUSB…` or `ttyACM…`.
pub open spec fn is_serial_name(name: Seq<char>) -> bool {
    has_prefix(name, "ttyUSB"@) || has_prefix(name, "ttyACM"@)
}

/// The paths under `/dev` of the serial adapters among the device names,
/// in the order given.
pub open spec fn serial_paths(names: Seq<Seq<char>>) -> Seq<Seq<char>> {
    names.filter(|n: Seq<char>| is_serial_name(n)).map_values(|n: Seq<char>| "/dev/"@ + n)
}

/// The serial adapters among the entries of `/dev`, as sorted paths.
pub fn serial_candidates_from(names: &Vec<String>) -> (res: Vec<String>)
    ensures
        views_of(res@) == serial_paths(views_of(names@)).sort_by(text_order()),
{
    let ghost all = views_of(names@);
    let ghost pred = |n: Seq<char>| is_serial_name(n);
    let mut paths: Vec<String> = Vec::new();
    let mut i: usize = 0;
    while i < names.len()
        invariant
            i <= names.len(),
            all == views_of(names@),
            pred == (|n: Seq<char>| is_serial_name(n)),
            views_of(paths@) == all.take(i as int).filter(pred).map_values(
                |n: Seq<char>| "/dev/"@ + n,
            ),
        decreases names.len() - i,
    {
        let name = chars_of(names[i].as_str());
        let keep = starts_with_chars(&name, "ttyUSB") || starts_with_chars(&name, "ttyACM");
        proof {
            reveal_with_fuel(vstd::seq::Seq::filter, 1);
            assert(all.take(i + 1).drop_last() =~= all.take(i as int));
            assert(all.take(i + 1).last() == all[i as int]);
        }
        let ghost before = paths@;
        let ghost kept = all.take(i as int).filter(pred);
        proof {
            assert(name@ == all[i as int]);
            assert(pred(all[i as int]) == keep);
            if keep {
                assert(all.take(i + 1).filter(pred) == kept.push(all[i as int]));
                assert(kept.push(all[i as int]).map_values(|n: Seq<char>| "/dev/"@ + n) =~= kept.map_values(
                    |n: Seq<char>| "/dev/"@ + n,
                ).push("/dev/"@ + all[i as int]));
            } else {
                assert(all.take(i + 1).filter(pred) == kept);
            }
        }
        if keep {
            let mut path = String::from_str("/dev/");
            path.append(names[i].as_str());
            paths.push(path);
            assert(views_of(paths@) =~= all.take(i + 1).filter(pred).map_values(
                |n: Seq<char>| "/dev/"@ + n,
            ));
        } else {
            assert(views_of(paths@) =~= all.take(i + 1).filter(pred).map_values(
                |n: Seq<char>| "/dev/"@ + n,
            ));
        }
        i = i + 1;
    }
    assert(all.take(names.len() as int) =~= all);
    sort_texts(paths)
}

} // verus!
