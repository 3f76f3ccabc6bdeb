//! Models to and from weight files.

use vstd::prelude::*;

use crate::classic::config::TransformerConfig;
use crate::classic::config;
use crate::classic::model;
use crate::classic::model::Transformer;
use crate::classic::model_laws;
use crate::classic::weights_file;
use crate::classic::weights_file::WeightsError;

verus! {

/// Why a weight file was not loaded.
#[derive(Debug)]
pub enum LoadError {
    /// The file is malformed.
    File(WeightsError),
    /// The file describes another configuration than the model has.
    ConfigMismatch,
    /// The file has another number of weights than the model has parameters.
    Size(String),
}

/// Whether a file describes the configuration of a model.
pub open spec fn describes(raw: Seq<u8>, config: TransformerConfig) -> bool {
    config::same_config(config, weights_file::described(raw))
}

impl Transformer<u32> {
    /// Writes the configuration and all weights as a file.
    pub fn save_weights(&self) -> (bytes: Vec<u8>)
        requires
            self.consistent(),
        ensures
            bytes@ == weights_file::file_bytes(self.config, self.flat()),
    {
        let weights: Vec<u32> = self.extract_weights();
        weights_file::encode_weights_file(&self.config, weights.as_slice())
    }

    /// Loads the weights of a file that describes the configuration of this model. On an error
    /// the model stays as it is.
    pub fn load_weights(&mut self, raw: &[u8]) -> (loaded: Result<(), LoadError>)
        requires
            old(self).consistent(),
        ensures
            match loaded {
                Ok(()) => {
                    &&& weights_file::fault(raw@) is None
                    &&& describes(raw@, old(self).config)
                    &&& final(self).flat() == weights_file::stored(raw@)
                    &&& final(self).same_shape(*old(self))
                    &&& final(self).same_frame(*old(self))
                },
                Err(LoadError::File(error)) => weights_file::fault(raw@) == Some(error)
                    && *final(self) == *old(self),
                Err(LoadError::ConfigMismatch) => {
                    &&& weights_file::fault(raw@) is None
                    &&& !describes(raw@, old(self).config)
                    &&& *final(self) == *old(self)
                },
                Err(LoadError::Size(message)) => {
                    &&& weights_file::fault(raw@) is None
                    &&& describes(raw@, old(self).config)
                    &&& weights_file::stored(raw@).len() != old(self).config.param_total()
                    &&& message@ == model::size_mismatch(
                        old(self).config.param_total(),
                        weights_file::stored(raw@).len(),
                    )
                    &&& *final(self) == *old(self)
                },
            },
    {
        match weights_file::parse_weights_file(raw) {
            Err(error) => Err(LoadError::File(error)),
            Ok((config, weights)) => {
                if self.config != config {
                    return Err(LoadError::ConfigMismatch);
                }
                match self.load_weights_flat(weights.as_slice()) {
                    Ok(()) => Ok(()),
                    Err(message) => Err(LoadError::Size(message)),
                }
            },
        }
    }
}

impl<T: Copy> Transformer<T> {
    /// A model of the given configuration with the given weights. The error names the first fault
    /// of the configuration, or reports that there are not as many weights as parameters.
    pub fn from_weights(
        config: TransformerConfig,
        weights: &[T],
        zero: T,
        one: T,
        scale: T,
        sinusoids: Vec<T>,
    ) -> (made: Result<Self, String>)
        requires
            config.countable(),
        ensures
            match made {
                Ok(model) => {
                    &&& config.fault() is None
                    &&& model.config == config
                    &&& model.shaped()
                    &&& model.consistent()
                    &&& model.flat() == weights@
                    &&& model.framed_for(config, scale, sinusoids)
                },
                Err(message) => match config.fault() {
                    Some(fault) => message@ == config.fault_message(fault),
                    None => weights@.len() != config.param_total() && message@
                        == model::size_mismatch(config.param_total(), weights@.len()),
                },
            },
    {
        match Transformer::blank(config, zero, one, scale, sinusoids) {
            Err(message) => Err(message),
            Ok(model) => {
                let mut model: Self = model;
                let ghost blank = model;
                match model.load_weights_flat(weights) {
                    Err(message) => Err(message),
                    Ok(()) => {
                        proof {
                            model_laws::lemma_same_shape_is_shaped(model, blank);
                            assert forall|i: int| 0 <= i < model.layers@.len() implies (
                            #[trigger] model.layers@[i]).framed_for(config, scale) by {
                                assert(blank.layers@[i].blank_for(config, zero, one, scale));
                                assert(model.layers@[i].same_frame(blank.layers@[i]));
                            }
                        }
                        Ok(model)
                    },
                }
            },
        }
    }
}

/// Saving a model and loading the file into a model of the same shape makes the weights of both
/// the same, buffer by buffer.
pub proof fn law_load_undoes_save(saved: Transformer<u32>, loaded: Transformer<u32>)
    requires
        saved.consistent(),
        weights_file::storable(saved.config),
        loaded.same_shape(saved),
        loaded.flat() == weights_file::stored(
            weights_file::file_bytes(saved.config, saved.flat()),
        ),
    ensures
        weights_file::fault(weights_file::file_bytes(saved.config, saved.flat())) is None,
        weights_file::described(weights_file::file_bytes(saved.config, saved.flat()))
            == saved.config,
        loaded.same_weights(saved),
{
    weights_file::law_weights_file_round_trip(saved.config, saved.flat());
    model_laws::law_weights_are_determined(loaded, saved);
}

} // verus!
