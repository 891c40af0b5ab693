//! What the capture callback sends to the sink, and what the sink makes of it.

use vstd::prelude::*;

verus! {

/// Why the capture pipeline failed.
#[derive(Debug, PartialEq, Eq)]
pub enum Error {
    /// The stream could not be built, and why.
    BuildStream(String),
    /// A sample could not be sent on.
    Send,
}

/// One message from the capture callback to the sink: a sample, or the
/// failure that took the place of one. A failure stands among the samples
/// where it happened.
#[derive(Debug)]
pub enum AudioMessage<O> {
    Data(O),
    Error(Error),
}

/// Gathers the samples that the sink received, in order. The first
/// failure among the messages ends the recording with that failure.
pub fn collect<O>(messages: Vec<AudioMessage<O>>) -> (r: Result<Vec<O>, Error>)
    ensures
        r is Ok <==> forall|i: int| 0 <= i < messages@.len() ==> (#[trigger] messages@[i]) is Data,
        r matches Ok(audio) ==> audio@.len() == messages@.len() && forall|i: int|
            0 <= i < audio@.len() ==> messages@[i] == AudioMessage::Data(#[trigger] audio@[i]),
        r matches Err(e) ==> exists|k: int|
            {
                &&& 0 <= k < messages@.len()
                &&& #[trigger] messages@[k] == AudioMessage::<O>::Error(e)
                &&& forall|j: int| 0 <= j < k ==> (#[trigger] messages@[j]) is Data
            },
{
    let mut audio: Vec<O> = Vec::new();
    let ghost all = messages@;
    for message in it: messages.into_iter()
        invariant
            it.seq() == all,
            audio@.len() == it.index(),
            forall|i: int| 0 <= i < it.index() ==> (#[trigger] all[i]) is Data,
            forall|i: int|
                0 <= i < audio@.len() ==> all[i] == AudioMessage::Data(#[trigger] audio@[i]),
    {
        let ghost k = it.index() as int;
        match message {
            AudioMessage::Data(sample) => {
                audio.push(sample);
            },
            AudioMessage::Error(e) => {
                assert(all[k] == AudioMessage::<O>::Error(e));
                assert(!(all[k] is Data));
                return Err(e);
            },
        }
    }
    Ok(audio)
}

} // verus!
