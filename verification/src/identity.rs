//! The application's identity towards a bridge: a secret key on disk, of which only
//! the public half is ever given away.
use crate::context::{FilePath, FilePathView, Folder};
use crate::error::{explained, ErrorChain};
use crate::model::{group_views, view_option, view_result, views};
use crate::plan::{
    best_effort, explained_step, fresh, plan_best_effort, plan_explained, Plan, PlanView, Planned,
    PlannedView, Step, StepView,
};
use crate::text::{decimal, trim, trimmed, write_decimal};
use vstd::prelude::*;
use vstd::utf8::{
    char_u32_cast, encode_scalar, encode_utf8, has_width_1_encoding, is_ascii_chars, is_ascii_chars_encode_utf8,
    leading_byte_width_2, leading_byte_width_3, leading_byte_width_4,
};

verus! {

broadcast use group_views;

/// The folder that holds what belongs to the bridge.
pub open spec fn bridge_folder() -> FilePathView {
    FilePathView { folder: Folder::Root, parts: seq!["bridge"@] }
}

/// The file that holds the secret key.
pub open spec fn identity_file() -> FilePathView {
    FilePathView { folder: Folder::Root, parts: seq!["bridge"@, "identity.key"@] }
}

/// The file that holds the record of the current pairing.
pub open spec fn current_file() -> FilePathView {
    FilePathView { folder: Folder::Root, parts: seq!["bridge"@, "current.json"@] }
}

/// The folder that holds what belongs to the bridge.
pub fn bridge_dir() -> (path: FilePath)
    ensures
        path@ == bridge_folder(),
{
    let path = FilePath::folder(Folder::Root).join("bridge");
    assert(path@.parts == bridge_folder().parts);
    path
}

/// The file that holds the secret key.
pub fn identity_path() -> (path: FilePath)
    ensures
        path@ == identity_file(),
{
    let path = bridge_dir().join("identity.key");
    assert(path@.parts == identity_file().parts);
    path
}

/// The file that holds the record of the current pairing.
pub fn current_path() -> (path: FilePath)
    ensures
        path@ == current_file(),
{
    let path = bridge_dir().join("current.json");
    assert(path@.parts == current_file().parts);
    path
}

/// The character of a hexadecimal digit, in lower case.
pub open spec fn hex_digit(value: int) -> char {
    if value < 10 {
        ((48 + value) as u8) as char
    } else {
        ((87 + value) as u8) as char
    }
}

/// Bytes in hexadecimal: two digits each, in lower case, the high one first.
pub open spec fn hex_of(bytes: Seq<u8>) -> Seq<char> {
    Seq::new(
        2 * bytes.len(),
        |i: int|
            hex_digit(
                if i % 2 == 0 {
                    bytes[i / 2] as int / 16
                } else {
                    bytes[i / 2] as int % 16
                },
            ),
    )
}

/// Writes a hexadecimal digit.
fn write_digit(value: u8) -> (digit: char)
    requires
        value < 16,
    ensures
        digit == hex_digit(value as int),
{
    if value < 10 {
        (48 + value) as char
    } else {
        (87 + value) as char
    }
}

/// Writes bytes in hexadecimal.
pub fn hex(bytes: &[u8]) -> (text: String)
    ensures
        text@ == hex_of(bytes@),
{
    let mut text = String::new();
    let mut i: usize = 0;
    while i < bytes.len()
        invariant
            i <= bytes@.len(),
            text@ == hex_of(bytes@).take(2 * i),
        decreases bytes@.len() - i,
    {
        text.push(write_digit(bytes[i] / 16));
        text.push(write_digit(bytes[i] % 16));
        i += 1;
        assert(hex_of(bytes@).take(2 * i) == hex_of(bytes@).take(2 * (i - 1)).push(
            hex_of(bytes@)[2 * (i - 1)],
        ).push(hex_of(bytes@)[2 * (i - 1) + 1]));
    }
    assert(hex_of(bytes@).take(2 * bytes@.len() as int) == hex_of(bytes@));
    text
}

/// The value of a hexadecimal digit, in either case.
pub open spec fn hex_value(digit: u8) -> Option<u8> {
    if 48 <= digit <= 57 {
        Some((digit - 48) as u8)
    } else if 65 <= digit <= 70 {
        Some((digit - 55) as u8)
    } else if 97 <= digit <= 102 {
        Some((digit - 87) as u8)
    } else {
        None
    }
}

/// The value of two hexadecimal digits, the high one first.
pub open spec fn pair_value(first: u8, second: u8) -> u8 {
    (hex_value(first)->0 * 16 + hex_value(second)->0) as u8
}

/// All bytes are hexadecimal digits.
pub open spec fn is_hex(bytes: Seq<u8>) -> bool {
    forall|i: int| 0 <= i < bytes.len() ==> hex_value(#[trigger] bytes[i]) is Some
}

/// The bytes of a key file that count.
pub open spec fn key_bytes(text: Seq<char>) -> Seq<u8> {
    encode_utf8(trimmed(text))
}

/// The key that a text holds: 64 hexadecimal digits, whatever white space surrounds
/// them.
pub open spec fn key_of(text: Seq<char>) -> Result<Seq<u8>, Seq<Seq<char>>> {
    let bytes = key_bytes(text);
    if bytes.len() != 64 {
        Err(seq!["expected 64 hex chars, got "@ + decimal(bytes.len())])
    } else if is_hex(bytes) {
        Ok(Seq::new(32, |i: int| pair_value(bytes[2 * i], bytes[2 * i + 1])))
    } else {
        Err(seq!["invalid hex in key"@, "invalid digit found in string"@])
    }
}

/// Reads a hexadecimal digit.
fn read_digit(digit: u8) -> (value: Option<u8>)
    ensures
        value == hex_value(digit),
        value is Some ==> value->0 < 16,
{
    if 48 <= digit && digit <= 57 {
        Some(digit - 48)
    } else if 65 <= digit && digit <= 70 {
        Some(digit - 55)
    } else if 97 <= digit && digit <= 102 {
        Some(digit - 87)
    } else {
        None
    }
}

/// Reads two hexadecimal digits.
fn read_pair(first: u8, second: u8) -> (value: Option<u8>)
    ensures
        value is Some <==> hex_value(first) is Some && hex_value(second) is Some,
        value is Some ==> value->0 == pair_value(first, second),
{
    match (read_digit(first), read_digit(second)) {
        (Some(high), Some(low)) => Some(high * 16 + low),
        _ => None,
    }
}

/// Reads a key of 32 bytes.
pub fn decode_key(text: &str) -> (key: Result<[u8; 32], ErrorChain>)
    ensures
        view_result(key) == key_of(text@),
{
    let short = trim(text);
    let bytes = short.as_str().as_bytes();
    if bytes.len() != 64 {
        let mut message = "expected 64 hex chars, got ".to_owned();
        message.append(write_decimal(bytes.len()).as_str());
        return Err(ErrorChain::new(message));
    }
    let mut key = [0u8; 32];
    let mut i: usize = 0;
    while i < 32
        invariant
            i <= 32,
            bytes@ == key_bytes(text@),
            bytes@.len() == 64,
            forall|j: int| 0 <= j < 2 * i ==> hex_value(#[trigger] bytes@[j]) is Some,
            forall|j: int|
                0 <= j < i ==> #[trigger] key@[j] == pair_value(bytes@[2 * j], bytes@[2 * j + 1]),
        decreases 32 - i,
    {
        match read_pair(bytes[2 * i], bytes[2 * i + 1]) {
            Some(value) => {
                key[i] = value;
            },
            None => {
                assert(!is_hex(bytes@)) by {
                    assert(hex_value(bytes@[2 * i]) is None || hex_value(bytes@[2 * i + 1]) is None);
                }
                let error = ErrorChain::new("invalid digit found in string".to_owned()).context(
                    "invalid hex in key".to_owned(),
                );
                assert(error@ == seq!["invalid hex in key"@, "invalid digit found in string"@]);
                return Err(error);
            },
        }
        i += 1;
    }
    assert(is_hex(bytes@));
    assert(key@ == Seq::new(32, |i: int| pair_value(bytes@[2 * i], bytes@[2 * i + 1])));
    Ok(key)
}

/// A key that was written in hexadecimal is read back as it was.
pub proof fn written_key_is_read_back(key: Seq<u8>)
    requires
        key.len() == 32,
    ensures
        key_of(hex_of(key)) == Ok::<Seq<u8>, Seq<Seq<char>>>(key),
{
    let text = hex_of(key);
    assert(trimmed(text) == text);
    assert(is_ascii_chars(text));
    is_ascii_chars_encode_utf8(text);
    let bytes = key_bytes(text);
    assert(bytes.len() == 64);
    assert forall|i: int| 0 <= i < 64 implies hex_value(#[trigger] bytes[i]) == Some(
        (if i % 2 == 0 {
            key[i / 2] / 16
        } else {
            key[i / 2] % 16
        }) as u8,
    ) by {
        assert(bytes[i] == text[i] as u8);
    }
    assert forall|i: int| 0 <= i < 32 implies pair_value(
        #[trigger] bytes[2 * i],
        bytes[2 * i + 1],
    ) == key[i] by {
        assert((2 * i) / 2 == i && (2 * i + 1) / 2 == i);
    }
    assert(Seq::new(32, |i: int| pair_value(bytes[2 * i], bytes[2 * i + 1])) == key);
}

/// A character is a hexadecimal digit, in either case.
pub open spec fn is_hex_char(c: char) -> bool {
    '0' <= c <= '9' || 'a' <= c <= 'f' || 'A' <= c <= 'F'
}

/// A text whose bytes are all hexadecimal digits is ASCII.
proof fn hex_is_ascii(chars: Seq<char>)
    requires
        is_hex(encode_utf8(chars)),
    ensures
        is_ascii_chars(chars),
    decreases chars.len(),
{
    if chars.len() > 0 {
        let scalar = chars[0] as u32;
        let head = encode_scalar(scalar);
        let tail = encode_utf8(chars.drop_first());
        let bytes = encode_utf8(chars);
        assert(bytes == head + tail);
        assert(is_hex(tail)) by {
            assert forall|i: int| 0 <= i < tail.len() implies hex_value(
                #[trigger] tail[i],
            ) is Some by {
                assert(tail[i] == bytes[head.len() + i]);
            }
        }
        hex_is_ascii(chars.drop_first());
        assert(hex_value(bytes[0]) is Some);
        assert(bytes[0] == head[0]);
        assert(head[0] < 0x80);
        assert(leading_byte_width_2(scalar) >= 0x80) by (bit_vector);
        assert(leading_byte_width_3(scalar) >= 0x80) by (bit_vector);
        assert(leading_byte_width_4(scalar) >= 0x80) by (bit_vector);
        assert(has_width_1_encoding(scalar));
        assert forall|i: int| 0 <= i < chars.len() implies '\0' <= #[trigger] chars[i]
            <= '\u{7f}' by {
            if i > 0 {
                assert(chars[i] == chars.drop_first()[i - 1]);
            } else {
                char_u32_cast(chars[0], scalar);
                assert(0 <= chars[0] as int <= 0x7f);
            }
        }
    }
}

/// A key file gives a key exactly where it holds 64 hexadecimal digits and, around them,
/// nothing but white space.
pub proof fn only_digits_are_a_key(text: Seq<char>)
    ensures
        key_of(text) is Ok <==> trimmed(text).len() == 64 && forall|i: int|
            0 <= i < trimmed(text).len() ==> is_hex_char(#[trigger] trimmed(text)[i]),
{
    let short = trimmed(text);
    let bytes = key_bytes(text);
    if key_of(text) is Ok {
        hex_is_ascii(short);
        is_ascii_chars_encode_utf8(short);
        assert forall|i: int| 0 <= i < short.len() implies is_hex_char(#[trigger] short[i]) by {
            assert(hex_value(bytes[i]) is Some);
        }
    } else if short.len() == 64 && forall|i: int|
        0 <= i < short.len() ==> is_hex_char(#[trigger] short[i]) {
        assert(is_ascii_chars(short));
        is_ascii_chars_encode_utf8(short);
        assert forall|i: int| 0 <= i < bytes.len() implies hex_value(#[trigger] bytes[i]) is Some by {
            assert(is_hex_char(short[i]));
        }
    }
}

/// What `SecretKey::public` of the `iroh` crate makes of a secret key, both as bytes.
pub uninterp spec fn public_key_of(secret: Seq<u8>) -> Seq<u8>;

/// Calls `SecretKey::public` of the `iroh` crate on the key that
/// `SecretKey::from_bytes` makes of `secret`, and gives the bytes of its result. They
/// are a function of the secret key; how they are computed is only named here.
#[verifier::external_body]
fn public_key(secret: &[u8; 32]) -> (key: [u8; 32])
    ensures
        key@ == public_key_of(secret@),
{
    *iroh::SecretKey::from_bytes(secret).public().as_bytes()
}

/// Calls `SecretKey::generate` of the `iroh` crate, which makes a new key at random,
/// and gives its bytes. Nothing is said of them. It returns wherever the system has a
/// source of random numbers.
#[verifier::external_body]
fn generate_secret() -> (secret: [u8; 32]) {
    iroh::SecretKey::generate().to_bytes()
}

/// The public half of an identity in hexadecimal.
pub open spec fn public_hex(secret: Seq<u8>) -> Seq<char> {
    hex_of(public_key_of(secret))
}

/// The public half of an identity in hexadecimal.
pub fn public_key_hex(secret: &[u8; 32]) -> (text: String)
    ensures
        text@ == public_hex(secret@),
{
    let key = public_key(secret);
    hex(key.as_slice())
}

/// An identity as it was found or made.
#[derive(Debug)]
pub enum Identity {
    /// The key was on disk.
    Known([u8; 32]),
    /// The key is new, and the plan saves it.
    New { secret: [u8; 32], save: Plan },
    /// There is a key file, but no key could be had from it.
    Failed(ErrorChain),
}

/// Model of an [`Identity`].
pub enum IdentityView {
    Known(Seq<u8>),
    New { secret: Seq<u8>, save: PlanView },
    Failed(Seq<Seq<char>>),
}

impl View for Identity {
    type V = IdentityView;

    open spec fn view(&self) -> IdentityView {
        match self {
            Identity::Known(secret) => IdentityView::Known(secret@),
            Identity::New { secret, save } => IdentityView::New { secret: secret@, save: save@ },
            Identity::Failed(error) => IdentityView::Failed(error@),
        }
    }
}

/// Saving a new key: its folder, the file, and on Unix a file that only its owner can
/// read.
pub open spec fn identity_steps(secret: Seq<u8>, unix: bool) -> Seq<PlannedView> {
    let write = seq![
        best_effort(StepView::CreateFolder(bridge_folder())),
        explained_step(
            StepView::WriteText { file: identity_file(), text: hex_of(secret) },
            "writing bridge identity"@,
        ),
    ];
    if unix {
        write.push(best_effort(StepView::Restrict(identity_file())))
    } else {
        write
    }
}

/// A new identity with the given key, and how it is saved.
pub open spec fn made_of(secret: Seq<u8>, unix: bool) -> IdentityView {
    IdentityView::New { secret, save: fresh(identity_steps(secret, unix)) }
}

/// A new identity with the given key.
pub fn new_identity(secret: [u8; 32], unix: bool) -> (identity: Identity)
    ensures
        identity@ == made_of(secret@, unix),
{
    let mut steps: Vec<Planned> = Vec::new();
    steps.push(plan_best_effort(Step::CreateFolder(bridge_dir())));
    steps.push(
        plan_explained(
            Step::WriteText { file: identity_path(), text: hex(secret.as_slice()) },
            "writing bridge identity".to_owned(),
        ),
    );
    if unix {
        steps.push(plan_best_effort(Step::Restrict(identity_path())));
    }
    assert(views(steps@) == identity_steps(secret@, unix));
    Identity::New { secret, save: Plan::new(steps) }
}

/// The identity that a key file holds.
pub open spec fn stored_identity(text: Seq<char>) -> IdentityView {
    match key_of(text) {
        Ok(secret) => IdentityView::Known(secret),
        Err(error) => IdentityView::Failed(error),
    }
}

/// The identity is what comes of a key file that was found to hold `found`: that of the
/// file, or a new one where there is no file.
pub open spec fn comes_from(
    identity: IdentityView,
    found: Result<Option<Seq<char>>, Seq<Seq<char>>>,
    unix: bool,
) -> bool {
    match found {
        Ok(Some(text)) => identity == stored_identity(text),
        Ok(None) => identity is New && identity->save == fresh(
            identity_steps(identity->New_secret, unix),
        ) && identity->New_secret.len() == 32,
        Err(error) => identity == IdentityView::Failed(
            explained(error, "reading bridge identity"@),
        ),
    }
}

/// Takes the identity from the key file, or makes a new one where there is no key
/// file. `found` is what the file holds, where it is there.
pub fn load_or_create_secret(found: Result<Option<String>, ErrorChain>, unix: bool) -> (identity:
    Identity)
    ensures
        comes_from(
            identity@,
            match found {
                Ok(text) => Ok(view_option(text)),
                Err(error) => Err(error@),
            },
            unix,
        ),
{
    match found {
        Ok(Some(text)) => match decode_key(text.as_str()) {
            Ok(secret) => Identity::Known(secret),
            Err(error) => Identity::Failed(error),
        },
        Ok(None) => new_identity(generate_secret(), unix),
        Err(error) => Identity::Failed(error.context("reading bridge identity".to_owned())),
    }
}

/// The key of an identity, once its plan was carried out; `failure` is the error that
/// ended the plan, where one did.
pub open spec fn settled_key(
    identity: IdentityView,
    failure: Option<Seq<Seq<char>>>,
) -> Result<Seq<u8>, Seq<Seq<char>>> {
    match (identity, failure) {
        (IdentityView::Known(secret), _) => Ok(secret),
        (IdentityView::New { secret, .. }, None) => Ok(secret),
        (IdentityView::New { .. }, Some(error)) => Err(error),
        (IdentityView::Failed(error), _) => Err(error),
    }
}

impl Identity {
    /// The key, once the plan was carried out; `failure` is the error that ended the
    /// plan, where one did.
    pub fn settle(self, failure: Option<ErrorChain>) -> (key: Result<[u8; 32], ErrorChain>)
        ensures
            view_result(key) == settled_key(self@, view_option(failure)),
    {
        match self {
            Identity::Known(secret) => Ok(secret),
            Identity::New { secret, .. } => match failure {
                Some(error) => Err(error),
                None => Ok(secret),
            },
            Identity::Failed(error) => Err(error),
        }
    }
}

/// An identity outlives the program: what the plan of a new identity writes to the
/// key file gives the same key when it is read again.
pub proof fn saved_identity_is_known_again(secret: Seq<u8>, unix: bool)
    requires
        secret.len() == 32,
    ensures
        identity_steps(secret, unix)[1].step is WriteText,
        identity_steps(secret, unix)[1].step->WriteText_file == identity_file(),
        stored_identity(identity_steps(secret, unix)[1].step->WriteText_text) == IdentityView::Known(secret),
{
    written_key_is_read_back(secret);
}

} // verus!
