//! The chip that proves to the phone that the device is genuine: what is asked of it, and what of
//! its answers is accepted.
use crate::error::{ErrorModel, NocturnedError};
use crate::text;
use vstd::prelude::*;

verus! {

/// The device file of the chip.
pub const MFI_DEVICE_PATH: &'static str = "/dev/apple_mfi";

/// The bytes of a challenge.
pub const MFI_CHALLENGE_SIZE: usize = 32;

/// The bytes of a response.
pub const MFI_RESPONSE_SIZE: usize = 64;

/// The chip.
#[derive(Clone, Copy, Debug, PartialEq, Eq, Structural)]
pub struct MfiChip {}

/// Every byte of a run is the same.
pub open spec fn all_bytes(data: Seq<u8>, b: u8) -> bool {
    forall|i: int| 0 <= i < data.len() ==> #[trigger] data[i] == b
}

fn is_all(data: &[u8], b: u8) -> (r: bool)
    ensures
        r == all_bytes(data@, b),
{
    let mut i: usize = 0;
    while i < data.len()
        invariant
            i <= data.len(),
            forall|k: int| 0 <= k < i ==> #[trigger] data@[k] == b,
        decreases data.len() - i,
    {
        if data[i] != b {
            return false;
        }
        i += 1;
    }
    true
}

/// Whether a byte is a printable character.
pub open spec fn printable(b: u8) -> bool {
    0x20 <= b <= 0x7e
}

/// How many bytes of a run are printable characters.
pub open spec fn printable_count(data: Seq<u8>) -> nat
    decreases data.len(),
{
    if data.len() == 0 {
        0
    } else {
        printable_count(data.drop_last()) + if printable(data.last()) {
            1nat
        } else {
            0nat
        }
    }
}

fn count_printable(data: &[u8]) -> (r: usize)
    ensures
        r == printable_count(data@),
{
    let mut count: usize = 0;
    let mut i: usize = 0;
    assert(data@.take(0) =~= Seq::empty());
    while i < data.len()
        invariant
            i <= data.len(),
            count <= i,
            count == printable_count(data@.take(i as int)),
        decreases data.len() - i,
    {
        assert(data@.take(i + 1).drop_last() =~= data@.take(i as int));
        if 0x20 <= data[i] && data[i] <= 0x7e {
            count += 1;
        }
        i += 1;
    }
    assert(data@.take(i as int) =~= data@);
    count
}

/// A failure of the chip.
fn chip_fault(message: &str) -> (r: NocturnedError)
    ensures
        r@ == ErrorModel::MfiDevice(message@),
{
    NocturnedError::MfiDevice(message.to_owned())
}

/// The length of the certificate that the chip gives in two bytes, or that it makes no sense.
pub open spec fn certificate_length(hi: u8, lo: u8) -> Result<usize, ErrorModel> {
    let len = hi * 0x100 + lo;
    if len == 0 || len > 1024 {
        Err(ErrorModel::MfiDevice("Invalid certificate length: "@ + text::decimal(len as nat)))
    } else {
        Ok(len as usize)
    }
}

/// What is wrong with a certificate, if anything.
pub open spec fn certificate_fault(cert: Seq<u8>) -> Option<ErrorModel> {
    if all_bytes(cert, 0x00) {
        Some(ErrorModel::MfiDevice("Certificate is all zeros"@))
    } else if all_bytes(cert, 0xff) {
        Some(ErrorModel::MfiDevice("Certificate is all 0xFF"@))
    } else {
        None
    }
}

/// What is wrong with a response, if anything, by the text that its bytes are shown as.
pub open spec fn response_fault(resp: Seq<u8>, shown: Seq<char>) -> Option<ErrorModel> {
    if all_bytes(resp, 0x00) {
        Some(
            ErrorModel::MfiDevice("MFi chip returned all-zero signature - hardware error"@),
        )
    } else if all_bytes(resp, 0xff) {
        Some(ErrorModel::MfiDevice("MFi chip returned all-FF signature - hardware error"@))
    } else if printable_count(resp) > 32 {
        Some(
            ErrorModel::MfiDevice(
                "Response appears to be ASCII (serial number?), expected binary signature. Got: "@
                    + shown,
            ),
        )
    } else if all_bytes(resp.subrange(0, 32), 0x00) {
        Some(
            ErrorModel::MfiDevice("ECDSA signature r-component is zero - invalid signature"@),
        )
    } else if all_bytes(resp.subrange(32, 64), 0x00) {
        Some(
            ErrorModel::MfiDevice("ECDSA signature s-component is zero - invalid signature"@),
        )
    } else {
        None
    }
}

/// How far the reading of the certificate has come.
#[derive(Debug)]
pub enum CertificateOutcome {
    /// The certificate is asked for.
    Asked,
    /// The chip could not be opened for the length.
    NotOpened(String),
    /// The chip gave no length.
    NoLength(String),
    /// The chip gave the two bytes of the length.
    Length(u8, u8),
    /// The chip could not be opened for the bytes.
    NotOpenedForData(String),
    /// The chip gave no bytes.
    NoData(String),
    /// The chip gave bytes, of which so many are the certificate.
    Data(Vec<u8>, usize),
}

/// What is done next to read the certificate.
#[derive(Debug)]
pub enum CertificateAction {
    /// Open the chip and ask for the two bytes of the length.
    ReadLength,
    /// Open the chip and ask for so many bytes.
    ReadData(usize),
    /// This is the certificate, or why there is none.
    Finish(Result<Vec<u8>, NocturnedError>),
}

/// How far the answer to a challenge has come.
#[derive(Debug)]
pub enum ChallengeOutcome {
    /// The challenge is given.
    Asked,
    /// The chip could not be opened.
    NotOpened(String),
    /// The chip did not take the challenge, with what the system returned.
    NotSent(i32, String),
    /// The chip took the challenge.
    Sent,
    /// The chip gave no answer, with what the system returned.
    NotRead(i32, String),
    /// The chip gave an answer.
    Answered(Vec<u8>),
}

/// What is done next to answer a challenge.
#[derive(Debug)]
pub enum ChallengeAction {
    /// Open the chip and send these bytes.
    Send(Vec<u8>),
    /// Leave the chip time to work, and ask for the answer.
    Read,
    /// This is the answer, or why there is none.
    Finish(Result<Vec<u8>, NocturnedError>),
}

/// The bytes that are handed out, or the failure.
pub open spec fn finish_model(r: Result<Vec<u8>, NocturnedError>) -> Result<Seq<u8>, ErrorModel> {
    match r {
        Ok(data) => Ok(data@),
        Err(e) => Err(e@),
    }
}

/// What is done next to read the certificate, apart from how it is stored.
pub enum CertificateActionModel {
    ReadLength,
    ReadData(usize),
    Finish(Result<Seq<u8>, ErrorModel>),
}

impl View for CertificateAction {
    type V = CertificateActionModel;

    open spec fn view(&self) -> CertificateActionModel {
        match self {
            CertificateAction::ReadLength => CertificateActionModel::ReadLength,
            CertificateAction::ReadData(len) => CertificateActionModel::ReadData(*len),
            CertificateAction::Finish(r) => CertificateActionModel::Finish(finish_model(*r)),
        }
    }
}

/// What is done next to answer a challenge, apart from how it is stored.
pub enum ChallengeActionModel {
    Send(Seq<u8>),
    Read,
    Finish(Result<Seq<u8>, ErrorModel>),
}

impl View for ChallengeAction {
    type V = ChallengeActionModel;

    open spec fn view(&self) -> ChallengeActionModel {
        match self {
            ChallengeAction::Send(data) => ChallengeActionModel::Send(data@),
            ChallengeAction::Read => ChallengeActionModel::Read,
            ChallengeAction::Finish(r) => ChallengeActionModel::Finish(finish_model(*r)),
        }
    }
}

/// The bytes, unless something is wrong with them.
pub open spec fn unless_fault(data: Seq<u8>, fault: Option<ErrorModel>) -> Result<
    Seq<u8>,
    ErrorModel,
> {
    match fault {
        Some(e) => Err(e),
        None => Ok(data),
    }
}

/// What is done about the certificate: the length is asked for first, and the bytes only where it
/// makes sense.
pub open spec fn certificate_step(outcome: CertificateOutcome) -> CertificateActionModel {
    match outcome {
        CertificateOutcome::Asked => CertificateActionModel::ReadLength,
        CertificateOutcome::NotOpened(fault) => CertificateActionModel::Finish(
            Err(ErrorModel::MfiDevice("Cannot open MFi device: "@ + fault@ + "."@)),
        ),
        CertificateOutcome::NoLength(fault) => CertificateActionModel::Finish(
            Err(ErrorModel::MfiDevice("ioctl get cert length failed: "@ + fault@)),
        ),
        CertificateOutcome::Length(hi, lo) => match certificate_length(hi, lo) {
            Ok(len) => CertificateActionModel::ReadData(len),
            Err(e) => CertificateActionModel::Finish(Err(e)),
        },
        CertificateOutcome::NotOpenedForData(fault) => CertificateActionModel::Finish(
            Err(ErrorModel::MfiDevice("Failed to open MFi device for data: "@ + fault@)),
        ),
        CertificateOutcome::NoData(fault) => CertificateActionModel::Finish(
            Err(ErrorModel::MfiDevice("ioctl get cert data failed: "@ + fault@)),
        ),
        CertificateOutcome::Data(data, len) => CertificateActionModel::Finish(
            unless_fault(data@.take(len as int), certificate_fault(data@.take(len as int))),
        ),
    }
}

/// A failure with what the system returned.
pub open spec fn ioctl_fault(what: Seq<char>, code: i32, fault: Seq<char>) -> ErrorModel {
    ErrorModel::MfiDevice(
        what + " (ioctl returned "@ + text::signed_decimal(code as int) + "): "@ + fault,
    )
}

/// What is done about a challenge. One of another length is refused, whatever happened; any other is
/// sent as it is, and what the chip answers is judged.
pub open spec fn challenge_step(
    challenge: Seq<u8>,
    outcome: ChallengeOutcome,
) -> ChallengeActionModel {
    if challenge.len() != MFI_CHALLENGE_SIZE {
        ChallengeActionModel::Finish(
            Err(
                ErrorModel::MfiDevice(
                    "Challenge must be 32 bytes, got "@ + text::decimal(challenge.len()),
                ),
            ),
        )
    } else {
        match outcome {
            ChallengeOutcome::Asked => ChallengeActionModel::Send(challenge),
            ChallengeOutcome::NotOpened(fault) => ChallengeActionModel::Finish(
                Err(ErrorModel::MfiDevice("Failed to open MFi device: "@ + fault@)),
            ),
            ChallengeOutcome::NotSent(code, fault) => ChallengeActionModel::Finish(
                Err(ioctl_fault("Failed to send challenge"@, code, fault@)),
            ),
            ChallengeOutcome::Sent => ChallengeActionModel::Read,
            ChallengeOutcome::NotRead(code, fault) => ChallengeActionModel::Finish(
                Err(ioctl_fault("Failed to read response"@, code, fault@)),
            ),
            ChallengeOutcome::Answered(resp) => ChallengeActionModel::Finish(
                unless_fault(resp@, response_fault(resp@, text::utf8_lossy(resp@))),
            ),
        }
    }
}

fn ioctl_failed(what: &str, code: i32, fault: &str) -> (r: NocturnedError)
    ensures
        r@ == ioctl_fault(what@, code, fault@),
{
    let shown = text::signed_decimal_text(code);
    let head = text::joined(what, " (ioctl returned ");
    let middle = text::joined(head.as_str(), shown.as_str());
    let tail = text::joined(middle.as_str(), "): ");
    NocturnedError::MfiDevice(text::joined(tail.as_str(), fault))
}

fn chip_fault_with(what: &str, fault: &str) -> (r: NocturnedError)
    ensures
        r@ == ErrorModel::MfiDevice(what@ + fault@),
{
    NocturnedError::MfiDevice(text::joined(what, fault))
}

impl MfiChip {
    /// The chip.
    pub fn new() -> (r: MfiChip)
        ensures
            r == (MfiChip {}),
    {
        MfiChip {}
    }

    /// Reads the length of the certificate.
    pub fn certificate_length(&self, hi: u8, lo: u8) -> (r: Result<usize, NocturnedError>)
        ensures
            match r {
                Ok(len) => certificate_length(hi, lo) == Ok::<usize, ErrorModel>(len),
                Err(e) => certificate_length(hi, lo) == Err::<usize, ErrorModel>(e@),
            },
    {
        let len: usize = hi as usize * 0x100 + lo as usize;
        if len == 0 || len > 1024 {
            let shown = text::decimal_text(len as u64);
            return Err(
                NocturnedError::MfiDevice(
                    text::joined("Invalid certificate length: ", shown.as_str()),
                ),
            );
        }
        Ok(len)
    }

    /// Accepts or refuses what the chip gave for its certificate, of which the first `cert_len`
    /// bytes count.
    pub fn check_certificate(&self, buf: Vec<u8>, cert_len: usize) -> (r: Result<
        Vec<u8>,
        NocturnedError,
    >)
        requires
            cert_len <= buf@.len(),
        ensures
            match r {
                Ok(cert) => cert@ == buf@.take(cert_len as int) && certificate_fault(cert@) is None,
                Err(e) => certificate_fault(buf@.take(cert_len as int)) == Some(e@),
            },
    {
        let mut cert = buf;
        cert.truncate(cert_len);
        assert(cert@ =~= buf@.take(cert_len as int));
        if is_all(cert.as_slice(), 0x00) {
            return Err(chip_fault("Certificate is all zeros"));
        }
        if is_all(cert.as_slice(), 0xff) {
            return Err(chip_fault("Certificate is all 0xFF"));
        }
        Ok(cert)
    }

    /// Reads the certificate: says what is done next.
    pub fn read_certificate(&self, outcome: CertificateOutcome) -> (r: CertificateAction)
        requires
            outcome matches CertificateOutcome::Data(data, len) ==> len <= data@.len(),
        ensures
            r@ == certificate_step(outcome),
    {
        match outcome {
            CertificateOutcome::Asked => CertificateAction::ReadLength,
            CertificateOutcome::NotOpened(fault) => {
                let head = text::joined("Cannot open MFi device: ", fault.as_str());
                CertificateAction::Finish(Err(chip_fault_with(head.as_str(), ".")))
            },
            CertificateOutcome::NoLength(fault) => CertificateAction::Finish(
                Err(chip_fault_with("ioctl get cert length failed: ", fault.as_str())),
            ),
            CertificateOutcome::Length(hi, lo) => match self.certificate_length(hi, lo) {
                Ok(len) => CertificateAction::ReadData(len),
                Err(e) => CertificateAction::Finish(Err(e)),
            },
            CertificateOutcome::NotOpenedForData(fault) => CertificateAction::Finish(
                Err(chip_fault_with("Failed to open MFi device for data: ", fault.as_str())),
            ),
            CertificateOutcome::NoData(fault) => CertificateAction::Finish(
                Err(chip_fault_with("ioctl get cert data failed: ", fault.as_str())),
            ),
            CertificateOutcome::Data(data, len) => CertificateAction::Finish(
                self.check_certificate(data, len),
            ),
        }
    }

    /// Accepts or refuses the length of a challenge.
    pub fn check_challenge(&self, challenge: &[u8]) -> (r: Result<(), NocturnedError>)
        ensures
            match r {
                Ok(_) => challenge@.len() == MFI_CHALLENGE_SIZE,
                Err(e) => challenge@.len() != MFI_CHALLENGE_SIZE && e@ == ErrorModel::MfiDevice(
                    "Challenge must be 32 bytes, got "@ + text::decimal(challenge@.len()),
                ),
            },
    {
        if challenge.len() != MFI_CHALLENGE_SIZE {
            let shown = text::decimal_text(challenge.len() as u64);
            return Err(
                NocturnedError::MfiDevice(
                    text::joined("Challenge must be 32 bytes, got ", shown.as_str()),
                ),
            );
        }
        Ok(())
    }

    /// Accepts or refuses what the chip answered to a challenge, by the text that its bytes are
    /// shown as.
    pub fn check_response(&self, resp: Vec<u8>, shown: &str) -> (r: Result<
        Vec<u8>,
        NocturnedError,
    >)
        requires
            resp@.len() == MFI_RESPONSE_SIZE,
        ensures
            match r {
                Ok(signature) => signature@ == resp@ && response_fault(resp@, shown@) is None,
                Err(e) => response_fault(resp@, shown@) == Some(e@),
            },
    {
        let data = resp.as_slice();
        if is_all(data, 0x00) {
            return Err(chip_fault("MFi chip returned all-zero signature - hardware error"));
        }
        if is_all(data, 0xff) {
            return Err(chip_fault("MFi chip returned all-FF signature - hardware error"));
        }
        if count_printable(data) > 32 {
            return Err(
                NocturnedError::MfiDevice(
                    text::joined(
                        "Response appears to be ASCII (serial number?), expected binary signature. Got: ",
                        shown,
                    ),
                ),
            );
        }
        if is_all(vstd::slice::slice_subrange(data, 0, 32), 0x00) {
            return Err(chip_fault("ECDSA signature r-component is zero - invalid signature"));
        }
        if is_all(vstd::slice::slice_subrange(data, 32, 64), 0x00) {
            return Err(chip_fault("ECDSA signature s-component is zero - invalid signature"));
        }
        Ok(resp)
    }

    /// Answers a challenge: says what is done next.
    pub fn challenge_response(&self, challenge: &[u8], outcome: ChallengeOutcome) -> (r:
        ChallengeAction)
        requires
            outcome matches ChallengeOutcome::Answered(resp) ==> resp@.len() == MFI_RESPONSE_SIZE,
        ensures
            r@ == challenge_step(challenge@, outcome),
    {
        match self.check_challenge(challenge) {
            Ok(_) => {},
            Err(e) => return ChallengeAction::Finish(Err(e)),
        }
        match outcome {
            ChallengeOutcome::Asked => ChallengeAction::Send(vstd::slice::slice_to_vec(challenge)),
            ChallengeOutcome::NotOpened(fault) => ChallengeAction::Finish(
                Err(chip_fault_with("Failed to open MFi device: ", fault.as_str())),
            ),
            ChallengeOutcome::NotSent(code, fault) => ChallengeAction::Finish(
                Err(ioctl_failed("Failed to send challenge", code, fault.as_str())),
            ),
            ChallengeOutcome::Sent => ChallengeAction::Read,
            ChallengeOutcome::NotRead(code, fault) => ChallengeAction::Finish(
                Err(ioctl_failed("Failed to read response", code, fault.as_str())),
            ),
            ChallengeOutcome::Answered(resp) => {
                let shown = text::lossy_text(resp.as_slice());
                ChallengeAction::Finish(self.check_response(resp, shown.as_str()))
            },
        }
    }
}

/// Nothing but a challenge of the right length reaches the chip, and it does so unchanged; any other
/// is refused whatever happened.
pub proof fn law_only_a_whole_challenge_is_sent(challenge: Seq<u8>, outcome: ChallengeOutcome)
    ensures
        challenge_step(challenge, outcome) matches ChallengeActionModel::Send(data) ==> data
            == challenge && data.len() == MFI_CHALLENGE_SIZE,
        challenge_step(challenge, outcome) matches ChallengeActionModel::Finish(Ok(signature)) ==> {
            &&& challenge.len() == MFI_CHALLENGE_SIZE
            &&& outcome matches ChallengeOutcome::Answered(resp)
            &&& signature == resp@
        },
        challenge.len() != MFI_CHALLENGE_SIZE ==> challenge_step(challenge, outcome) matches
            ChallengeActionModel::Finish(Err(e)),
{
}

/// A response that is accepted has two components that are not zero, and is not a text.
pub proof fn law_accepted_response_is_a_signature(resp: Seq<u8>, shown: Seq<char>)
    requires
        resp.len() == MFI_RESPONSE_SIZE,
        response_fault(resp, shown) is None,
    ensures
        exists|i: int| 0 <= i < 32 && resp[i] != 0,
        exists|i: int| 32 <= i < 64 && resp[i] != 0,
        printable_count(resp) <= 32,
{
    let r = resp.subrange(0, 32);
    let i = choose|i: int| 0 <= i < 32 && r[i] != 0;
    assert(resp[i] != 0);
    let s = resp.subrange(32, 64);
    let j = choose|j: int| 0 <= j < 32 && s[j] != 0;
    assert(resp[j + 32] != 0);
}

proof fn lemma_printable_count(data: Seq<u8>)
    ensures
        printable_count(data) == data.filter(|b: u8| 0x20 <= b <= 0x7e).len(),
    decreases data.len(),
{
    reveal(Seq::filter);
    if data.len() > 0 {
        lemma_printable_count(data.drop_last());
    }
}

/// A response is accepted just where it has two components that are not zero, is no text and is not
/// what a dead line reads as.
pub proof fn law_signature_is_accepted(resp: Seq<u8>, shown: Seq<char>)
    requires
        resp.len() == MFI_RESPONSE_SIZE,
    ensures
        response_fault(resp, shown) is None <==> {
            &&& exists|i: int| 0 <= i < 32 && #[trigger] resp[i] != 0
            &&& exists|i: int| 32 <= i < 64 && #[trigger] resp[i] != 0
            &&& exists|i: int| 0 <= i < 64 && #[trigger] resp[i] != 0xff
            &&& resp.filter(|b: u8| 0x20 <= b <= 0x7e).len() <= 32
        },
{
    lemma_printable_count(resp);
    let r = resp.subrange(0, 32);
    let s = resp.subrange(32, 64);
    if response_fault(resp, shown) is None {
        let i = choose|i: int| 0 <= i < 32 && r[i] != 0;
        assert(resp[i] != 0);
        let j = choose|j: int| 0 <= j < 32 && s[j] != 0;
        assert(resp[j + 32] != 0);
        assert(!all_bytes(resp, 0xff));
    }
    if exists|i: int| 0 <= i < 32 && #[trigger] resp[i] != 0 {
        let i = choose|i: int| 0 <= i < 32 && #[trigger] resp[i] != 0;
        assert(r[i] != 0);
    }
    if exists|i: int| 32 <= i < 64 && #[trigger] resp[i] != 0 {
        let i = choose|i: int| 32 <= i < 64 && #[trigger] resp[i] != 0;
        assert(s[i - 32] != 0);
    }
}

/// The chip is asked for as many bytes of its certificate as it says there are, where that is a
/// number that makes sense. The certificate is those bytes, unless they are what a dead line reads
/// as, and nothing else ends well.
pub proof fn law_certificate_is_what_the_chip_gave(outcome: CertificateOutcome)
    ensures
        certificate_step(outcome) is ReadLength <==> outcome is Asked,
        certificate_step(outcome) matches CertificateActionModel::ReadData(len) ==> {
            &&& outcome matches CertificateOutcome::Length(hi, lo)
            &&& len == hi * 256 + lo
            &&& 0 < len <= 1024
        },
        outcome matches CertificateOutcome::Length(hi, lo) ==> (0 < hi * 256 + lo <= 1024
            <==> certificate_step(outcome) is ReadData),
        certificate_step(outcome) matches CertificateActionModel::Finish(Ok(cert)) ==> {
            &&& outcome matches CertificateOutcome::Data(data, len)
            &&& cert == data@.take(len as int)
            &&& exists|i: int| 0 <= i < cert.len() && #[trigger] cert[i] != 0
            &&& exists|i: int| 0 <= i < cert.len() && #[trigger] cert[i] != 0xff
        },
        outcome matches CertificateOutcome::Data(data, len) ==> ({
            let cert = data@.take(len as int);
            (exists|i: int| 0 <= i < cert.len() && #[trigger] cert[i] != 0) && (exists|i: int|
                0 <= i < cert.len() && #[trigger] cert[i] != 0xff) ==> certificate_step(outcome)
                == CertificateActionModel::Finish(Ok(cert))
        }),
{
    if let CertificateOutcome::Data(data, len) = outcome {
        let cert = data@.take(len as int);
        assert(all_bytes(cert, 0) || exists|i: int| 0 <= i < cert.len() && #[trigger] cert[i] != 0);
        assert(all_bytes(cert, 0xff) || exists|i: int|
            0 <= i < cert.len() && #[trigger] cert[i] != 0xff);
    }
}

/// A challenge of the right length is sent when it comes, its answer is read once it is sent, and a
/// signature that comes back is handed out.
pub proof fn law_whole_challenge_is_answered(challenge: Seq<u8>, outcome: ChallengeOutcome)
    requires
        challenge.len() == MFI_CHALLENGE_SIZE,
    ensures
        outcome is Asked ==> challenge_step(challenge, outcome) == ChallengeActionModel::Send(
            challenge,
        ),
        outcome is Sent ==> challenge_step(challenge, outcome) is Read,
        outcome matches ChallengeOutcome::Answered(resp) ==> {
            let fault = response_fault(resp@, text::utf8_lossy(resp@));
            &&& challenge_step(challenge, outcome) is Finish
            &&& fault is None ==> challenge_step(challenge, outcome)
                == ChallengeActionModel::Finish(Ok(resp@))
            &&& fault is Some ==> challenge_step(challenge, outcome) matches
                ChallengeActionModel::Finish(Err(e))
        },
{
}

} // verus!
