//! Support for exercising the ledger: the standard validator set the test
//! scenarios register with the staking subsystem.

use vstd::prelude::*;

verus! {

/// Fill `validators` with the three standard validator names the test
/// scenarios use as the staking subsystem's known validators.
pub fn set_validator_mock(validators: &mut Vec<String>)
    ensures
        final(validators)@.len() == old(validators)@.len() + 3,
        final(validators)@.subrange(0, old(validators)@.len() as int) == old(validators)@,
        final(validators)@[old(validators)@.len() as int]@ == "default-validator"@,
        final(validators)@[old(validators)@.len() as int + 1]@ == "default-validator2000"@,
        final(validators)@[old(validators)@.len() as int + 2]@ == "default-validator3000"@,
{
    let ghost n = validators@.len();
    validators.push("default-validator".to_owned());
    validators.push("default-validator2000".to_owned());
    validators.push("default-validator3000".to_owned());
    proof {
        assert(validators@.subrange(0, n as int) =~= old(validators)@);
    }
}

} // verus!
