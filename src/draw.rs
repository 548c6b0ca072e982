use rand::distributions::{Bernoulli, BernoulliError};
use rand::rngs::ThreadRng;
use vstd::prelude::*;

verus! {

/// Location of the log-normal incubation length (days), in hundredths: 1.63.
pub const INCUBATION_LOG_MEAN_HUNDREDTHS: u32 = 163;

/// Scale of the log-normal incubation length (days), in hundredths: 0.5.
pub const INCUBATION_LOG_SD_HUNDREDTHS: u32 = 50;

/// Chance that an infection shows symptoms, as a ratio: 3 in 5.
pub const SYMPTOMATIC_NUMERATOR: u32 = 3;

/// See `SYMPTOMATIC_NUMERATOR`.
pub const SYMPTOMATIC_DENOMINATOR: u32 = 5;

/// `rand::distributions::Bernoulli`, carried through opaque.
#[verifier::external_type_specification]
#[verifier::external_body]
pub struct ExBernoulli(Bernoulli);

/// `rand::distributions::BernoulliError`, carried through opaque.
#[verifier::external_type_specification]
#[verifier::external_body]
pub struct ExBernoulliError(BernoulliError);

/// `rand::rngs::ThreadRng`, carried through opaque.
#[verifier::external_type_specification]
#[verifier::external_body]
pub struct ExThreadRng(ThreadRng);

/// Relies on `rand::distributions::Bernoulli::from_ratio`: it fails exactly when the
/// numerator exceeds the denominator or the denominator is zero.
#[verifier::external_body]
fn bernoulli_from_ratio(numerator: u32, denominator: u32) -> (r: Result<Bernoulli, BernoulliError>)
    ensures
        r is Ok <==> (numerator <= denominator && denominator > 0),
{
    Bernoulli::from_ratio(numerator, denominator)
}

/// Relies on `rand::thread_rng`, the generator local to the current thread.
#[verifier::external_body]
fn thread_rng() -> ThreadRng {
    rand::thread_rng()
}

/// Relies on `Bernoulli`'s `Distribution::sample`: one random draw.
#[verifier::external_body]
fn sample_bernoulli(d: &Bernoulli, rng: &mut ThreadRng) -> bool {
    rand::distributions::Distribution::sample(d, rng)
}

/// The course an infection takes, as drawn when it starts: the days from exposure
/// to the (possibly unseen) onset of symptoms, and whether symptoms show.
#[derive(Clone, Copy, Debug, PartialEq, Eq, Structural)]
pub struct Course {
    pub incubation: u64,
    pub symptomatic: bool,
}

impl Course {
    /// Completes a course from a drawn incubation length by drawing, with chance
    /// `SYMPTOMATIC_NUMERATOR / SYMPTOMATIC_DENOMINATOR`, whether symptoms show.
    pub fn draw(incubation: u64) -> (r: Course)
        ensures
            r.incubation == incubation,
    {
        let symptomatic = match bernoulli_from_ratio(SYMPTOMATIC_NUMERATOR, SYMPTOMATIC_DENOMINATOR) {
            Ok(d) => {
                let mut rng = thread_rng();
                sample_bernoulli(&d, &mut rng)
            },
            Err(_) => {
                proof {
                    assert(false);
                }
                false
            },
        };
        Course { incubation, symptomatic }
    }
}

} // verus!
