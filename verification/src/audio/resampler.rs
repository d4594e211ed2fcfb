//! Per-microphone sample-rate conversion: when a converter exists, and what
//! a microphone contributes to a frame for each outcome of a conversion.
//!
//! The conversion itself is the caller's: the library holds the converter's
//! state as an opaque engine `E` and is handed the functions that create an
//! engine and run it.

use crate::audio::frame::fit_to_frame;
use crate::audio::frame::fitted;
use crate::audio::frame::make_silent_frame;
use crate::audio::frame::silent_frame;
use crate::audio::ring::SampleConsumer;
use crate::audio::types::DEFAULT_BUFFER_SIZE;
use crate::error::AppError;
use vstd::prelude::*;

verus! {

/// How one run of a conversion engine ended.
pub enum Conversion<S> {
    /// The engine produced this channel of converted samples.
    Converted(Vec<S>),
    /// The engine ran but produced no channel.
    NoChannel,
    /// The engine could not be run, or reported a failure.
    Failed,
}

/// The frame a microphone contributes after a conversion of the non-empty
/// `window`: the converted samples coerced to the frame size; silence where
/// the engine gave no channel; and, where the conversion failed, the raw
/// window coerced to the frame size.
pub open spec fn resampled<S>(
    window: Seq<S>,
    outcome: Conversion<S>,
    frame_size: nat,
    silence: S,
) -> Seq<S> {
    match outcome {
        Conversion::Converted(channel) => fitted(channel@, frame_size, silence),
        Conversion::NoChannel => silent_frame(frame_size, silence),
        Conversion::Failed => fitted(window, frame_size, silence),
    }
}

/// `frame` is what a converter with the given engine can contribute: a
/// silent frame, where nothing was queued; else what a conversion of some
/// non-empty read window of at most `DEFAULT_BUFFER_SIZE` samples gives.
pub open spec fn is_resampled_frame<S, E, C: Fn(&E, &Vec<S>) -> Conversion<S>>(
    frame: Seq<S>,
    engine: E,
    frame_size: nat,
    silence: S,
    convert: C,
) -> bool {
    frame == silent_frame(frame_size, silence) || exists|window: Vec<S>, outcome: Conversion<S>|
        {
            &&& 0 < window.len() <= DEFAULT_BUFFER_SIZE
            &&& #[trigger] call_ensures(convert, (&engine, &window), outcome)
            &&& frame == resampled(window@, outcome, frame_size, silence)
        }
}

/// The message of the error that reports why no engine could be created.
pub open spec fn creation_failure(why: Seq<char>) -> Seq<char> {
    "Failed to create resampler: "@ + why
}

/// The converter of one microphone whose input rate differs from the
/// output rate. It is never shared between microphones.
pub struct AudioResampler<E> {
    input_rate: u32,
    output_rate: u32,
    engine: E,
}

impl<E> AudioResampler<E> {
    #[verifier::type_invariant]
    spec fn rates_differ(self) -> bool {
        self.input_rate != self.output_rate
    }

    /// The sample rate of the microphone.
    pub closed spec fn input_rate(self) -> u32 {
        self.input_rate
    }

    /// The sample rate of the output device.
    pub closed spec fn output_rate(self) -> u32 {
        self.output_rate
    }

    /// The state of the conversion engine.
    pub closed spec fn engine(self) -> E {
        self.engine
    }

    /// The converter from `input_rate` to `output_rate`, if one is needed.
    ///
    /// Equal rates need none, and `make` is not called. Otherwise `make`
    /// creates the engine for the two rates; if it fails, so does this
    /// function, with the engine's reason in the message.
    pub fn new<F: Fn(u32, u32) -> Result<E, String>>(
        input_rate: u32,
        output_rate: u32,
        make: &F,
    ) -> (made: Result<Option<Self>, AppError>)
        requires
            call_requires(*make, (input_rate, output_rate)),
        ensures
            input_rate == output_rate ==> made == Ok::<Option<Self>, AppError>(None),
            input_rate != output_rate ==> match made {
                Ok(Some(resampler)) => {
                    &&& resampler.input_rate() == input_rate
                    &&& resampler.output_rate() == output_rate
                    &&& call_ensures(
                        *make,
                        (input_rate, output_rate),
                        Ok::<E, String>(resampler.engine()),
                    )
                },
                Ok(None) => false,
                Err(error) => exists|why: String|
                    {
                        &&& call_ensures(*make, (input_rate, output_rate), Err::<E, String>(why))
                        &&& error is CpalError
                        &&& error.message()@ == creation_failure(why@)
                    },
            },
    {
        if input_rate == output_rate {
            return Ok(None);
        }
        match make(input_rate, output_rate) {
            Ok(engine) => Ok(Some(AudioResampler { input_rate, output_rate, engine })),
            Err(why) => {
                let message = String::from_str("Failed to create resampler: ").concat(
                    why.as_str(),
                );
                let error = AppError::CpalError(message);
                assert(call_ensures(*make, (input_rate, output_rate), Err::<E, String>(why))
                    && error.message()@ == creation_failure(why@));
                Err(error)
            },
        }
    }

    /// The input rate of the converter. It always differs from the output
    /// rate.
    pub fn get_input_rate(&self) -> (rate: u32)
        ensures
            rate == self.input_rate(),
            rate != self.output_rate(),
    {
        proof {
            use_type_invariant(self);
        }
        self.input_rate
    }

    /// The output rate of the converter.
    pub fn get_output_rate(&self) -> (rate: u32)
        ensures
            rate == self.output_rate(),
    {
        self.output_rate
    }

    /// The frame that the microphone contributes, given the `window` that
    /// was read from its queue and, where the window is not empty, the
    /// `outcome` of converting it.
    ///
    /// An empty window gives a silent frame whatever the outcome says.
    pub fn finish<S: Copy>(
        window: &Vec<S>,
        outcome: Conversion<S>,
        frame_size: usize,
        silence: S,
    ) -> (frame: Vec<S>)
        ensures
            frame@ == (if window.len() == 0 {
                silent_frame(frame_size as nat, silence)
            } else {
                resampled(window@, outcome, frame_size as nat, silence)
            }),
    {
        if window.len() == 0 {
            return make_silent_frame(frame_size, silence);
        }
        match outcome {
            Conversion::Converted(channel) => fit_to_frame(&channel, frame_size, silence),
            Conversion::NoChannel => make_silent_frame(frame_size, silence),
            Conversion::Failed => fit_to_frame(window, frame_size, silence),
        }
    }

    /// Takes up to one read window of queued samples from `consumer`,
    /// converts them with `convert`, and coerces the result to `frame_size`
    /// samples.
    ///
    /// If nothing is queued the frame is silent and `convert` is not called.
    /// Otherwise the frame is what `finish` gives for the window that was
    /// read and the outcome of the conversion.
    pub fn resample<S: Copy, C: Fn(&E, &Vec<S>) -> Conversion<S>>(
        &self,
        consumer: &SampleConsumer<S>,
        frame_size: usize,
        silence: S,
        convert: &C,
    ) -> (frame: Vec<S>)
        requires
            forall|window: Vec<S>| call_requires(*convert, (&self.engine(), &window)),
        ensures
            frame.len() == frame_size,
            is_resampled_frame(frame@, self.engine(), frame_size as nat, silence, *convert),
    {
        let window = consumer.read_window(DEFAULT_BUFFER_SIZE, silence);
        if window.len() == 0 {
            return make_silent_frame(frame_size, silence);
        }
        let outcome = convert(&self.engine, &window);
        let ghost seen = outcome;
        let frame = Self::finish(&window, outcome, frame_size, silence);
        assert(call_ensures(*convert, (&self.engine(), &window), seen));
        frame
    }
}

/// `slot` is what a microphone with the given rates gets: nothing where the
/// rates are equal, else a converter between them whose engine `make` gave.
pub open spec fn is_resampler_for<E, F: Fn(u32, u32) -> Result<E, String>>(
    slot: Option<AudioResampler<E>>,
    input_rate: u32,
    output_rate: u32,
    make: F,
) -> bool {
    match slot {
        None => input_rate == output_rate,
        Some(resampler) => {
            &&& input_rate != output_rate
            &&& resampler.input_rate() == input_rate
            &&& resampler.output_rate() == output_rate
            &&& call_ensures(make, (input_rate, output_rate), Ok::<E, String>(resampler.engine()))
        },
    }
}

/// `slots` holds, for each of `input_rates` in order, what a microphone of
/// that rate gets.
pub open spec fn is_resampler_list<E, F: Fn(u32, u32) -> Result<E, String>>(
    slots: Seq<Option<AudioResampler<E>>>,
    input_rates: Seq<u32>,
    output_rate: u32,
    make: F,
) -> bool {
    &&& slots.len() == input_rates.len()
    &&& forall|i: int|
        0 <= i < slots.len() ==> is_resampler_for(
            #[trigger] slots[i],
            input_rates[i],
            output_rate,
            make,
        )
}

/// `error` reports that `make` could not create the engine of one of the
/// microphones that need a converter.
pub open spec fn is_creation_error<E, F: Fn(u32, u32) -> Result<E, String>>(
    error: AppError,
    input_rates: Seq<u32>,
    output_rate: u32,
    make: F,
) -> bool {
    exists|i: int, why: String|
        {
            &&& 0 <= i < input_rates.len()
            &&& #[trigger] input_rates[i] != output_rate
            &&& #[trigger] call_ensures(make, (input_rates[i], output_rate), Err::<E, String>(why))
            &&& error is CpalError
            &&& error.message()@ == creation_failure(why@)
        }
}

/// The maker of engines gives an engine for every pair of rates.
pub open spec fn never_fails<E, F: Fn(u32, u32) -> Result<E, String>>(make: F) -> bool {
    forall|input_rate: u32, output_rate: u32, made: Result<E, String>|
        #[trigger] call_ensures(make, (input_rate, output_rate), made) ==> made is Ok
}

/// Whether a microphone has a converter depends on its pair of rates alone:
/// it has none exactly where its input rate equals the output rate. Where
/// all rates equal the output rate, no converter state exists at all.
pub proof fn lemma_converter_presence<E, F: Fn(u32, u32) -> Result<E, String>>(
    slots: Seq<Option<AudioResampler<E>>>,
    input_rates: Seq<u32>,
    output_rate: u32,
    make: F,
)
    requires
        is_resampler_list(slots, input_rates, output_rate, make),
    ensures
        forall|i: int|
            0 <= i < slots.len() ==> ((#[trigger] slots[i]) is None <==> input_rates[i]
                == output_rate),
        (forall|i: int| 0 <= i < input_rates.len() ==> #[trigger] input_rates[i] == output_rate)
            ==> forall|i: int| 0 <= i < slots.len() ==> (#[trigger] slots[i]) is None,
{
    assert forall|i: int| 0 <= i < slots.len() implies ((#[trigger] slots[i]) is None
        <==> input_rates[i] == output_rate) by {
        assert(is_resampler_for(slots[i], input_rates[i], output_rate, make));
    }
}

/// One converter for each microphone that needs one: `None` exactly where
/// the microphone's input rate equals `output_sample_rate`.
///
/// Fails as soon as the engine of one microphone cannot be created; no
/// converter is then handed out.
pub fn create_resamplers<E, F: Fn(u32, u32) -> Result<E, String>>(
    input_sample_rates: &Vec<u32>,
    output_sample_rate: u32,
    make: &F,
) -> (made: Result<Vec<Option<AudioResampler<E>>>, AppError>)
    requires
        forall|rate: u32| call_requires(*make, (rate, output_sample_rate)),
    ensures
        match made {
            Ok(resamplers) => is_resampler_list(
                resamplers@,
                input_sample_rates@,
                output_sample_rate,
                *make,
            ),
            Err(error) => is_creation_error(
                error,
                input_sample_rates@,
                output_sample_rate,
                *make,
            ),
        },
        never_fails(*make) ==> made is Ok,
{
    let mut resamplers: Vec<Option<AudioResampler<E>>> = Vec::with_capacity(
        input_sample_rates.len(),
    );
    let mut i: usize = 0;
    while i < input_sample_rates.len()
        invariant
            forall|rate: u32| call_requires(*make, (rate, output_sample_rate)),
            i <= input_sample_rates.len(),
            resamplers.len() == i,
            forall|k: int|
                0 <= k < i ==> is_resampler_for(
                    #[trigger] resamplers[k],
                    input_sample_rates[k],
                    output_sample_rate,
                    *make,
                ),
        decreases input_sample_rates.len() - i,
    {
        match AudioResampler::new(input_sample_rates[i], output_sample_rate, make) {
            Ok(resampler) => {
                resamplers.push(resampler);
            },
            Err(error) => {
                proof {
                    let why = choose|why: String|
                        {
                            &&& call_ensures(
                                *make,
                                (input_sample_rates[i as int], output_sample_rate),
                                Err::<E, String>(why),
                            )
                            &&& error is CpalError
                            &&& error.message()@ == creation_failure(why@)
                        };
                    assert(input_sample_rates@[i as int] != output_sample_rate);
                    assert(call_ensures(
                        *make,
                        (input_sample_rates@[i as int], output_sample_rate),
                        Err::<E, String>(why),
                    ));
                }
                return Err(error);
            },
        }
        i += 1;
    }
    Ok(resamplers)
}

} // verus!
