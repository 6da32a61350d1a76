//! The rules around the exchangeable noise-suppression models: how a loaded model is
//! identified, and when its output is fit to be a frame.

use crate::format::{Frame, Sample, FRAME_SAMPLES};
use crate::text::{concat3, decimal, decimal_text};
use vstd::prelude::*;

verus! {

/// Why a model could not be loaded or run.
#[derive(Debug, Clone)]
pub enum DspError {
    Load(String),
    Inference(String),
}

/// A loaded raw-audio model, as far as frames are concerned: the tensors it reads and writes, and its label.
#[derive(Debug, Clone)]
pub struct OnnxDenoiser {
    pub input_name: String,
    pub output_name: String,
    pub model_label: String,
}

/// The model's label: the name of its file, where it has one.
pub open spec fn label_of(file_name: Option<&str>) -> Seq<char> {
    match file_name {
        Some(name) => name@,
        None => "onnx-model"@,
    }
}

impl OnnxDenoiser {
    /// Identify a model from its file name and from the names of its inputs and outputs. The
    /// first of each is the one used; a model without either is refused, for its inputs first.
    pub fn load(file_name: Option<&str>, inputs: &Vec<String>, outputs: &Vec<String>) -> (r: Result<
        Self,
        DspError,
    >)
        ensures
            if inputs@.len() == 0 {
                r matches Err(DspError::Load(why)) && why@ == "model has no inputs"@
            } else if outputs@.len() == 0 {
                r matches Err(DspError::Load(why)) && why@ == "model has no outputs"@
            } else {
                r matches Ok(model) && model.input_name@ == inputs@[0]@ && model.output_name@
                    == outputs@[0]@ && model.model_label@ == label_of(file_name)
            },
    {
        if inputs.len() == 0 {
            return Err(DspError::Load("model has no inputs".to_owned()));
        }
        if outputs.len() == 0 {
            return Err(DspError::Load("model has no outputs".to_owned()));
        }
        let model_label: String = match file_name {
            Some(name) => name.to_owned(),
            None => "onnx-model".to_owned(),
        };
        Ok(
            OnnxDenoiser {
                input_name: inputs[0].clone(),
                output_name: outputs[0].clone(),
                model_label,
            },
        )
    }

    /// Take a model's output as the new frame. `output` is the tensor found under the output's
    /// name, or nothing where the model gave none. An output that is not exactly one frame long
    /// is refused, and the frame then stays as it was.
    pub fn accept_output(&self, output: Option<&[Sample]>, frame: &mut Frame) -> (r: Result<
        (),
        DspError,
    >)
        ensures
            match output {
                None => {
                    &&& r matches Err(DspError::Inference(why)) && why@ == "missing output '"@
                        + self.output_name@ + "'"@
                    &&& *final(frame) == *old(frame)
                },
                Some(samples) => if samples@.len() == FRAME_SAMPLES {
                    r is Ok && final(frame)@ == samples@
                } else {
                    &&& r matches Err(DspError::Inference(why)) && why@ == "expected "@ + decimal(
                        FRAME_SAMPLES as nat,
                    ) + " output samples, got "@ + decimal(samples@.len())
                    &&& *final(frame) == *old(frame)
                },
            },
    {
        match output {
            None => Err(
                DspError::Inference(concat3("missing output '", self.output_name.as_str(), "'")),
            ),
            Some(samples) => {
                if samples.len() != FRAME_SAMPLES {
                    let mut why: String = concat3(
                        "expected ",
                        decimal_text(FRAME_SAMPLES as u64).as_str(),
                        " output samples, got ",
                    );
                    why.append(decimal_text(samples.len() as u64).as_str());
                    return Err(DspError::Inference(why));
                }
                let mut i: usize = 0;
                while i < FRAME_SAMPLES
                    invariant
                        samples@.len() == FRAME_SAMPLES,
                        0 <= i <= FRAME_SAMPLES,
                        forall|j: int| 0 <= j < i ==> frame@[j] == samples@[j],
                    decreases FRAME_SAMPLES - i,
                {
                    frame[i] = samples[i];
                    i = i + 1;
                }
                proof {
                    assert(frame@ == samples@);
                }
                Ok(())
            },
        }
    }
}

/// The shape to hand one frame over in, by the shape that the model declares for its input:
/// batch, channel and samples where it has three dimensions, else batch and samples.
pub fn input_shape(declared: &Vec<i64>) -> (r: Vec<i64>)
    ensures
        r@ == (if declared@.len() == 3 {
            seq![1i64, 1i64, FRAME_SAMPLES as i64]
        } else {
            seq![1i64, FRAME_SAMPLES as i64]
        }),
{
    let mut r: Vec<i64> = Vec::new();
    r.push(1);
    if declared.len() == 3 {
        r.push(1);
    }
    r.push(FRAME_SAMPLES as i64);
    r
}

/// A model is called by its file's name, whatever that is, and by a name of its own only where
/// it has no file name.
pub proof fn law_models_are_called_by_their_files(name: &str)
    ensures
        label_of(Some(name)) == name@,
        label_of(None) == "onnx-model"@,
{
}

} // verus!
