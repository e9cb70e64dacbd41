//! The layers of a window, one step at a time.
//!
//! A pipeline holds two buffers of the window's size that take turns: one
//! holds the last layer built, the other receives the next. Whoever drives
//! the pipeline can do with each layer what it likes, commit it to a Merkle
//! tree for one, before it asks for the next.

use vstd::prelude::*;
use crate::config::Config;
use crate::error::Error;
use crate::labels::{
    all_elements, butterfly_decode_layer, butterfly_encode_layer, butterfly_layer, expander_layer,
    mask_layer, spec_decode, spec_encode, spec_label_layer,
};

verus! {

/// What a pipeline is, to its users: the window it works on and how far it
/// has come.
pub struct PipelineView {
    /// The parameters of the window.
    pub config: Config,
    /// The index of the window.
    pub window_index: u32,
    /// The replica identifier.
    pub replica_id: Seq<u8>,
    /// How many label layers have been built.
    pub layers_built: nat,
}

impl PipelineView {
    /// Whether every label layer has been built, so that only the last
    /// layer, which takes the data, is left.
    pub open spec fn complete(&self) -> bool {
        self.layers_built + 1 == self.config.spec_num_layers()
    }

    /// The last label layer built.
    pub open spec fn last_layer(&self) -> Seq<u8> {
        spec_label_layer(self.config, self.window_index, self.replica_id, self.layers_built)
    }

    /// Whether the last layer is built from `data`, and if not, why not.
    pub open spec fn finish_outcome(&self, data: Seq<u8>) -> Result<(), Error> {
        if data.len() != self.config.n {
            Err(Error::BufferLength)
        } else if !self.complete() {
            Err(Error::LayerIndex)
        } else if !all_elements(data, self.config.spec_num_leafs()) {
            Err(Error::DomainConversion)
        } else {
            Ok(())
        }
    }
}

/// The label layers of one window in the making.
pub struct LabelPipeline {
    config: Config,
    window_index: u32,
    replica_id: [u8; 32],
    layers_built: u32,
    last_layer: Vec<u8>,
    spare_layer: Vec<u8>,
}

impl View for LabelPipeline {
    type V = PipelineView;

    closed spec fn view(&self) -> PipelineView {
        PipelineView {
            config: self.config,
            window_index: self.window_index,
            replica_id: self.replica_id@,
            layers_built: self.layers_built as nat,
        }
    }
}

impl LabelPipeline {
    #[verifier::type_invariant]
    spec fn well_formed(&self) -> bool {
        &&& self.config.valid()
        &&& self.layers_built < self.config.spec_num_layers()
        &&& self.last_layer@.len() == self.config.n
        &&& self.spare_layer@.len() == self.config.n
        &&& self.layers_built >= 1 ==> self.last_layer@ == self@.last_layer()
    }

    /// A pipeline for one window that has built no layer yet. Parameters
    /// that are not valid are turned down.
    pub fn new(config: &Config, window_index: u32, replica_id: &[u8; 32]) -> (res: Result<
        LabelPipeline,
        Error,
    >)
        ensures
            config.valid() ==> res is Ok && res->Ok_0@ == (PipelineView {
                config: *config,
                window_index,
                replica_id: replica_id@,
                layers_built: 0,
            }),
            !config.valid() ==> res == Err::<LabelPipeline, Error>(Error::InvalidConfig),
    {
        if !config.is_valid() {
            return Err(Error::InvalidConfig);
        }
        Ok(
            LabelPipeline {
                config: *config,
                window_index,
                replica_id: *replica_id,
                layers_built: 0,
                last_layer: vec![0u8; config.n],
                spare_layer: vec![0u8; config.n],
            },
        )
    }

    /// How many label layers have been built: also the index of the last
    /// one built.
    pub fn layers_built(&self) -> (built: u32)
        ensures
            built == self@.layers_built,
            self@.config.valid(),
            built < self@.config.spec_num_layers(),
    {
        proof {
            use_type_invariant(self);
        }
        self.layers_built
    }

    /// Whether every label layer has been built, so that only the last
    /// layer, which takes the data, is left.
    pub fn is_complete(&self) -> (complete: bool)
        ensures
            complete == self@.complete(),
    {
        proof {
            use_type_invariant(self);
        }
        self.layers_built as usize + 1 == self.config.num_layers()
    }

    /// The last label layer built. Before the first layer is built, a
    /// buffer of the window's size whose content means nothing.
    pub fn last_layer(&self) -> (layer: &[u8])
        ensures
            layer@.len() == self@.config.n,
            self@.layers_built >= 1 ==> layer@ == self@.last_layer(),
    {
        proof {
            use_type_invariant(self);
        }
        self.last_layer.as_slice()
    }

    /// Builds the next label layer: the mask layer first, then the expander
    /// layers, then the butterfly layers. Once every label layer has been
    /// built there is no next one.
    pub fn advance(self) -> (res: Result<LabelPipeline, Error>)
        ensures
            !self@.complete() ==> res is Ok && res->Ok_0@ == (PipelineView {
                layers_built: self@.layers_built + 1,
                ..self@
            }),
            self@.complete() ==> res == Err::<LabelPipeline, Error>(Error::LayerIndex),
    {
        proof {
            use_type_invariant(&self);
        }
        if self.is_complete() {
            return Err(Error::LayerIndex);
        }
        let LabelPipeline {
            config,
            window_index,
            replica_id,
            layers_built,
            last_layer,
            spare_layer,
        } = self;
        let mut next_layer = spare_layer;
        let layer_index = layers_built + 1;
        let built = if layer_index == 1 {
            mask_layer(&config, window_index, &replica_id, next_layer.as_mut_slice())
        } else if layer_index as usize <= config.num_expander_layers {
            expander_layer(
                &config,
                window_index,
                &replica_id,
                layer_index,
                last_layer.as_slice(),
                next_layer.as_mut_slice(),
            )
        } else {
            butterfly_layer(
                &config,
                window_index,
                &replica_id,
                layer_index,
                last_layer.as_slice(),
                next_layer.as_mut_slice(),
            )
        };
        match built {
            Ok(()) => Ok(
                LabelPipeline {
                    config,
                    window_index,
                    replica_id,
                    layers_built: layer_index,
                    last_layer: next_layer,
                    spare_layer: last_layer,
                },
            ),
            Err(e) => Err(e),
        }
    }

    /// Builds the last layer by folding its keys into `data`, and returns
    /// the encoded data.
    ///
    /// This needs data of the window's size, every label layer built, and
    /// data whose nodes are domain elements.
    pub fn encode(self, data: &[u8]) -> (res: Result<Vec<u8>, Error>)
        ensures
            match res {
                Ok(encoded) => {
                    &&& self@.finish_outcome(data@) is Ok
                    &&& encoded@ == spec_encode(
                        self@.config,
                        self@.window_index,
                        self@.replica_id,
                        data@,
                    )
                },
                Err(e) => self@.finish_outcome(data@) == Err::<(), Error>(e),
            },
    {
        proof {
            use_type_invariant(&self);
        }
        if data.len() != self.config.n {
            return Err(Error::BufferLength);
        }
        if !self.is_complete() {
            return Err(Error::LayerIndex);
        }
        let mut encoded = self.spare_layer;
        let layer_index = self.layers_built + 1;
        match butterfly_encode_layer(
            &self.config,
            self.window_index,
            &self.replica_id,
            layer_index,
            self.last_layer.as_slice(),
            data,
            encoded.as_mut_slice(),
        ) {
            Ok(()) => Ok(encoded),
            Err(e) => Err(e),
        }
    }

    /// Builds the last layer by taking its keys out of `encoded_data`, and
    /// returns the decoded data.
    ///
    /// This needs encoded data of the window's size, every label layer
    /// built, and encoded data whose nodes are domain elements.
    pub fn decode(self, encoded_data: &[u8]) -> (res: Result<Vec<u8>, Error>)
        ensures
            match res {
                Ok(data) => {
                    &&& self@.finish_outcome(encoded_data@) is Ok
                    &&& data@ == spec_decode(
                        self@.config,
                        self@.window_index,
                        self@.replica_id,
                        encoded_data@,
                    )
                },
                Err(e) => self@.finish_outcome(encoded_data@) == Err::<(), Error>(e),
            },
    {
        proof {
            use_type_invariant(&self);
        }
        if encoded_data.len() != self.config.n {
            return Err(Error::BufferLength);
        }
        if !self.is_complete() {
            return Err(Error::LayerIndex);
        }
        let mut data = self.spare_layer;
        let layer_index = self.layers_built + 1;
        match butterfly_decode_layer(
            &self.config,
            self.window_index,
            &self.replica_id,
            layer_index,
            self.last_layer.as_slice(),
            encoded_data,
            data.as_mut_slice(),
        ) {
            Ok(()) => Ok(data),
            Err(e) => Err(e),
        }
    }
}

} // verus!
