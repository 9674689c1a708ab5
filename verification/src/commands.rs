use vstd::prelude::*;
use crate::numfmt::is_dec_seq;
use crate::numfmt::dec_value;
use crate::numfmt::parse_u64;

verus! {

/// Whether a token is an amount a wallet can hold: decimal digits
/// whose value fits in 64 bits.
pub open spec fn valid_amount(token: Seq<char>) -> bool {
    is_dec_seq(token) && dec_value(token) <= u64::MAX
}

/// The transfer tuples read from a run of whitespace-split tokens,
/// four a tuple: type, sender, receiver and amount. A tuple whose
/// amount does not parse is skipped.
pub open spec fn spec_parse_chunks(tokens: Seq<String>) -> Seq<(String, String, String, u64)>
    decreases tokens.len(),
{
    if tokens.len() < 4 {
        Seq::empty()
    } else {
        let rest = spec_parse_chunks(tokens.skip(4));
        if valid_amount(tokens[3]@) {
            seq![(tokens[0], tokens[1], tokens[2], dec_value(tokens[3]@) as u64)] + rest
        } else {
            rest
        }
    }
}

/// Reads TRANSACTION arguments: repeating four-token tuples. A token
/// count that is not a multiple of four yields nothing; a tuple with
/// an unreadable amount is skipped.
pub fn parse_transaction_data(tokens: &Vec<String>) -> (r: Vec<(String, String, String, u64)>)
    ensures
        tokens@.len() % 4 != 0 ==> r@.len() == 0,
        tokens@.len() % 4 == 0 ==> r@ == spec_parse_chunks(tokens@),
{
    let mut r: Vec<(String, String, String, u64)> = Vec::new();
    if tokens.len() % 4 != 0 {
        return r;
    }
    let mut i: usize = 0;
    proof {
        assert(tokens@.skip(0) =~= tokens@);
        assert(r@ + spec_parse_chunks(tokens@) =~= spec_parse_chunks(tokens@));
    }
    while i < tokens.len()
        invariant
            i <= tokens@.len(),
            i % 4 == 0,
            tokens@.len() % 4 == 0,
            spec_parse_chunks(tokens@) == r@ + spec_parse_chunks(tokens@.skip(i as int)),
        decreases tokens@.len() - i,
    {
        let ghost before = r@;
        let ghost rest = tokens@.skip(i as int);
        proof {
            assert(rest.len() >= 4);
            assert(rest[0] == tokens@[i as int]);
            assert(rest[1] == tokens@[i as int + 1]);
            assert(rest[2] == tokens@[i as int + 2]);
            assert(rest[3] == tokens@[i as int + 3]);
            assert(rest.skip(4) =~= tokens@.skip(i as int + 4));
        }
        match parse_u64(tokens[i + 3].as_str()) {
            Some(amount) => {
                r.push(
                    (
                        tokens[i].clone(),
                        tokens[i + 1].clone(),
                        tokens[i + 2].clone(),
                        amount,
                    ),
                );
                proof {
                    assert(r@ =~= before + seq![
                        (
                            tokens@[i as int],
                            tokens@[i as int + 1],
                            tokens@[i as int + 2],
                            dec_value(tokens@[i as int + 3]@) as u64,
                        ),
                    ]);
                }
            },
            None => {},
        }
        i = i + 4;
        proof {
            assert(spec_parse_chunks(tokens@) =~= r@ + spec_parse_chunks(tokens@.skip(i as int)));
        }
    }
    proof {
        assert(tokens@.skip(tokens@.len() as int) =~= Seq::<String>::empty());
        assert(r@ =~= spec_parse_chunks(tokens@));
    }
    r
}

/// Reads ADD_USER arguments: a name and an opening balance, or the
/// empty name with a zero balance when the shape is wrong.
pub fn parse_add_user_data(tokens: &Vec<String>) -> (r: (String, String))
    ensures
        tokens@.len() == 2 ==> r.0 == tokens@[0] && r.1 == tokens@[1],
        tokens@.len() != 2 ==> r.0@ == Seq::<char>::empty() && r.1@ == "0"@,
{
    if tokens.len() == 2 {
        (tokens[0].clone(), tokens[1].clone())
    } else {
        (String::new(), String::from_str("0"))
    }
}

} // verus!
