use vstd::prelude::*;
use crate::board::grid_view;

verus! {

#[verifier::external_type_specification]
#[verifier::external_body]
pub struct ExJsonError(serde_json::Error);

/// The character of a decimal digit.
pub open spec fn digit_char(d: nat) -> char {
    seq!['0', '1', '2', '3', '4', '5', '6', '7', '8', '9'][d as int]
}

/// The decimal text of `n`: no sign, no leading zeros.
pub open spec fn decimal_text(n: nat) -> Seq<char>
    decreases n,
{
    if n < 10 {
        seq![digit_char(n)]
    } else {
        decimal_text(n / 10).push(digit_char(n % 10))
    }
}

/// The texts joined with `,` between neighbours.
pub open spec fn comma_joined(items: Seq<Seq<char>>) -> Seq<char>
    decreases items.len(),
{
    if items.len() == 0 {
        Seq::empty()
    } else if items.len() == 1 {
        items[0]
    } else {
        comma_joined(items.drop_last()) + seq![','] + items.last()
    }
}

/// `[` + `t` + `]`.
pub open spec fn bracketed(t: Seq<char>) -> Seq<char> {
    seq!['['] + t + seq![']']
}

/// A row as a compact JSON array of decimal integers.
pub open spec fn row_json(r: Seq<u32>) -> Seq<char> {
    bracketed(comma_joined(r.map_values(|c: u32| decimal_text(c as nat))))
}

/// A grid as a compact JSON array of its rows, e.g. `[[1,2],[3,0]]`.
pub open spec fn grid_json(g: Seq<Seq<u32>>) -> Seq<char> {
    bracketed(comma_joined(g.map_values(|r: Seq<u32>| row_json(r))))
}

/// Relies on serde_json::to_string: a `Vec<Vec<u32>>` serialises without
/// error (no map keys, no failing `Serialize` impl, a `Vec` writer) as
/// compact JSON, arrays in brackets with `,` between items and each integer
/// in decimal.
#[verifier::external_body]
fn grid_to_json(g: &Vec<Vec<u32>>) -> (r: Result<String, serde_json::Error>)
    ensures
        r is Ok,
        r matches Ok(t) ==> t@ == grid_json(grid_view(*g)),
{
    serde_json::to_string(g)
}

/// The outbound message for a snapshot: the board as a JSON array of rows of
/// packed `0x00RRGGBB` integers, row-major.
pub fn encode_snapshot(g: &Vec<Vec<u32>>) -> (r: String)
    ensures
        r@ == grid_json(grid_view(*g)),
{
    match grid_to_json(g) {
        Ok(t) => t,
        Err(_) => {
            proof {
                assert(false);
            }
            String::new()
        },
    }
}

} // verus!
