//! One module per data version, each registering what that version changes.

pub mod v99;
pub mod v502;
pub mod v700;
pub mod v701;
pub mod v702;
pub mod v703;
pub mod v704;
pub mod v705;
pub mod v804;
pub mod v806;
pub mod v808;
pub mod v813;
pub mod v820;
pub mod v3825;
pub mod v3828;
pub mod v3833;
pub mod v3938;
pub mod v3945;
pub mod v4054;
pub mod v4055;
pub mod v4059;
pub mod v4064;
pub mod v4067;
pub mod v4068;
pub mod v4070;
pub mod v4081;
pub mod v4173;
pub mod v4175;
pub mod v4176;
pub mod v4181;
pub mod v4187;
pub mod v4290;
pub mod v4291;
pub mod v4292;
pub mod v4293;
pub mod v4294;
pub mod v4296;
pub mod v4299;
pub mod v4300;
pub mod v4301;
pub mod v4302;
pub mod v4303;
pub mod v4305;
pub mod v4306;
pub mod v4307;
pub mod v4314;
pub mod v4420;
pub mod v4421;
pub mod v4424;
pub mod v4439;
pub mod v4533;
pub mod v4535;
pub mod v4541;
pub mod v4649;
pub mod v4763;

use vstd::prelude::*;
use super::registry::{Registration, RegistryBuilder};

verus! {

/// Every version's registrations, oldest version first.
pub open spec fn all_registrations() -> Seq<Registration> {
    v99::registrations()
        + v502::registrations()
        + v700::registrations()
        + v701::registrations()
        + v702::registrations()
        + v703::registrations()
        + v704::registrations()
        + v705::registrations()
        + v804::registrations()
        + v806::registrations()
        + v808::registrations()
        + v813::registrations()
        + v820::registrations()
        + v3825::registrations()
        + v3828::registrations()
        + v3833::registrations()
        + v3938::registrations()
        + v3945::registrations()
        + v4054::registrations()
        + v4055::registrations()
        + v4059::registrations()
        + v4064::registrations()
        + v4067::registrations()
        + v4068::registrations()
        + v4070::registrations()
        + v4081::registrations()
        + v4173::registrations()
        + v4175::registrations()
        + v4176::registrations()
        + v4181::registrations()
        + v4187::registrations()
        + v4290::registrations()
        + v4291::registrations()
        + v4292::registrations()
        + v4293::registrations()
        + v4294::registrations()
        + v4296::registrations()
        + v4299::registrations()
        + v4300::registrations()
        + v4301::registrations()
        + v4302::registrations()
        + v4303::registrations()
        + v4305::registrations()
        + v4306::registrations()
        + v4307::registrations()
        + v4314::registrations()
        + v4420::registrations()
        + v4421::registrations()
        + v4424::registrations()
        + v4439::registrations()
        + v4533::registrations()
        + v4535::registrations()
        + v4541::registrations()
        + v4649::registrations()
        + v4763::registrations()
}

/// The registry with every version's registrations, oldest version first.
pub fn build_registry() -> (r: RegistryBuilder)
    ensures
        r.entries@ == all_registrations(),
{
    let mut r = RegistryBuilder::new();
    let ghost mut acc: Seq<Registration> = Seq::empty();
    v99::register(&mut r);
    proof {
        acc = acc + v99::registrations();
    }
    v502::register(&mut r);
    proof {
        acc = acc + v502::registrations();
    }
    v700::register(&mut r);
    proof {
        acc = acc + v700::registrations();
    }
    v701::register(&mut r);
    proof {
        acc = acc + v701::registrations();
    }
    v702::register(&mut r);
    proof {
        acc = acc + v702::registrations();
    }
    v703::register(&mut r);
    proof {
        acc = acc + v703::registrations();
    }
    v704::register(&mut r);
    proof {
        acc = acc + v704::registrations();
    }
    v705::register(&mut r);
    proof {
        acc = acc + v705::registrations();
    }
    v804::register(&mut r);
    proof {
        acc = acc + v804::registrations();
    }
    v806::register(&mut r);
    proof {
        acc = acc + v806::registrations();
    }
    v808::register(&mut r);
    proof {
        acc = acc + v808::registrations();
    }
    v813::register(&mut r);
    proof {
        acc = acc + v813::registrations();
    }
    v820::register(&mut r);
    proof {
        acc = acc + v820::registrations();
    }
    v3825::register(&mut r);
    proof {
        acc = acc + v3825::registrations();
    }
    v3828::register(&mut r);
    proof {
        acc = acc + v3828::registrations();
    }
    v3833::register(&mut r);
    proof {
        acc = acc + v3833::registrations();
    }
    v3938::register(&mut r);
    proof {
        acc = acc + v3938::registrations();
    }
    v3945::register(&mut r);
    proof {
        acc = acc + v3945::registrations();
    }
    v4054::register(&mut r);
    proof {
        acc = acc + v4054::registrations();
    }
    v4055::register(&mut r);
    proof {
        acc = acc + v4055::registrations();
    }
    v4059::register(&mut r);
    proof {
        acc = acc + v4059::registrations();
    }
    v4064::register(&mut r);
    proof {
        acc = acc + v4064::registrations();
    }
    v4067::register(&mut r);
    proof {
        acc = acc + v4067::registrations();
    }
    v4068::register(&mut r);
    proof {
        acc = acc + v4068::registrations();
    }
    v4070::register(&mut r);
    proof {
        acc = acc + v4070::registrations();
    }
    v4081::register(&mut r);
    proof {
        acc = acc + v4081::registrations();
    }
    v4173::register(&mut r);
    proof {
        acc = acc + v4173::registrations();
    }
    v4175::register(&mut r);
    proof {
        acc = acc + v4175::registrations();
    }
    v4176::register(&mut r);
    proof {
        acc = acc + v4176::registrations();
    }
    v4181::register(&mut r);
    proof {
        acc = acc + v4181::registrations();
    }
    v4187::register(&mut r);
    proof {
        acc = acc + v4187::registrations();
    }
    v4290::register(&mut r);
    proof {
        acc = acc + v4290::registrations();
    }
    v4291::register(&mut r);
    proof {
        acc = acc + v4291::registrations();
    }
    v4292::register(&mut r);
    proof {
        acc = acc + v4292::registrations();
    }
    v4293::register(&mut r);
    proof {
        acc = acc + v4293::registrations();
    }
    v4294::register(&mut r);
    proof {
        acc = acc + v4294::registrations();
    }
    v4296::register(&mut r);
    proof {
        acc = acc + v4296::registrations();
    }
    v4299::register(&mut r);
    proof {
        acc = acc + v4299::registrations();
    }
    v4300::register(&mut r);
    proof {
        acc = acc + v4300::registrations();
    }
    v4301::register(&mut r);
    proof {
        acc = acc + v4301::registrations();
    }
    v4302::register(&mut r);
    proof {
        acc = acc + v4302::registrations();
    }
    v4303::register(&mut r);
    proof {
        acc = acc + v4303::registrations();
    }
    v4305::register(&mut r);
    proof {
        acc = acc + v4305::registrations();
    }
    v4306::register(&mut r);
    proof {
        acc = acc + v4306::registrations();
    }
    v4307::register(&mut r);
    proof {
        acc = acc + v4307::registrations();
    }
    v4314::register(&mut r);
    proof {
        acc = acc + v4314::registrations();
    }
    v4420::register(&mut r);
    proof {
        acc = acc + v4420::registrations();
    }
    v4421::register(&mut r);
    proof {
        acc = acc + v4421::registrations();
    }
    v4424::register(&mut r);
    proof {
        acc = acc + v4424::registrations();
    }
    v4439::register(&mut r);
    proof {
        acc = acc + v4439::registrations();
    }
    v4533::register(&mut r);
    proof {
        acc = acc + v4533::registrations();
    }
    v4535::register(&mut r);
    proof {
        acc = acc + v4535::registrations();
    }
    v4541::register(&mut r);
    proof {
        acc = acc + v4541::registrations();
    }
    v4649::register(&mut r);
    proof {
        acc = acc + v4649::registrations();
    }
    v4763::register(&mut r);
    proof {
        acc = acc + v4763::registrations();
    }
    proof {
        assert(acc =~= all_registrations());
        assert(r.entries@ =~= acc);
    }
    r
}

} // verus!
