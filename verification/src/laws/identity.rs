//! What the identity of the application is and how it is kept.
use crate::context::{FilePathView, Folder};
use crate::identity::{
    bridge_folder, comes_from, current_file, hex_of, identity_file, identity_steps, is_hex_char,
    key_of, made_of, only_digits_are_a_key, public_hex, public_key_of, settled_key, IdentityView,
};
use crate::laws::commands::{does, ends_well};
use crate::laws::plan::{demanded, steady_plan_is_done};
use crate::plan::{fresh, OnFailureView, PlanView, ReplyView, StepView};
use crate::text::{decimal, trimmed};
use vstd::prelude::*;
use vstd::utf8::{encode_utf8, is_ascii_chars, is_ascii_chars_encode_utf8};

verus! {

/// The value of a hexadecimal digit in lower case.
pub open spec fn digit_value(c: char) -> int {
    if '0' <= c <= '9' {
        c as int - '0' as int
    } else {
        c as int - 'a' as int + 10
    }
}

/// Hexadecimal writes each byte as two digits in lower case, of which the first counts
/// sixteen times.
pub proof fn each_byte_is_two_digits(bytes: Seq<u8>, i: int)
    requires
        0 <= i < bytes.len(),
    ensures
        hex_of(bytes).len() == 2 * bytes.len(),
        bytes[i] == 16 * digit_value(hex_of(bytes)[2 * i]) + digit_value(hex_of(bytes)[2 * i + 1]),
        '0' <= hex_of(bytes)[2 * i] <= '9' || 'a' <= hex_of(bytes)[2 * i] <= 'f',
        '0' <= hex_of(bytes)[2 * i + 1] <= '9' || 'a' <= hex_of(bytes)[2 * i + 1] <= 'f',
{
    let text = hex_of(bytes);
    let high = bytes[i] as int / 16;
    let low = bytes[i] as int % 16;
    assert((2 * i) / 2 == i && (2 * i) % 2 == 0);
    assert((2 * i + 1) / 2 == i && (2 * i + 1) % 2 == 1);
    assert(text[2 * i] as int == if high < 10 {
        48 + high
    } else {
        87 + high
    });
    assert(text[2 * i + 1] as int == if low < 10 {
        48 + low
    } else {
        87 + low
    });
}

/// What is given away of an identity are the bytes of its public half, two digits each.
pub proof fn public_half_is_given_away(secret: Seq<u8>, i: int)
    requires
        0 <= i < public_key_of(secret).len(),
    ensures
        public_hex(secret).len() == 2 * public_key_of(secret).len(),
        public_key_of(secret)[i] == 16 * digit_value(public_hex(secret)[2 * i]) + digit_value(
            public_hex(secret)[2 * i + 1],
        ),
{
    each_byte_is_two_digits(public_key_of(secret), i);
}

/// The value of a hexadecimal digit, in either case.
pub open spec fn either_value(c: char) -> int {
    if 'A' <= c <= 'F' {
        c as int - 'A' as int + 10
    } else {
        digit_value(c)
    }
}

/// A key is what its digits say, whatever their case and the white space around them: each
/// two are a byte, of which the first counts sixteen times.
pub proof fn key_is_what_the_digits_say(text: Seq<char>, i: int)
    requires
        key_of(text) is Ok,
        0 <= i < 32,
    ensures
        key_of(text)->Ok_0.len() == 32,
        key_of(text)->Ok_0[i] == 16 * either_value(trimmed(text)[2 * i]) + either_value(
            trimmed(text)[2 * i + 1],
        ),
{
    only_digits_are_a_key(text);
    let short = trimmed(text);
    assert(is_ascii_chars(short)) by {
        assert forall|k: int| 0 <= k < short.len() implies '\0' <= #[trigger] short[k]
            <= '\u{7f}' by {
            assert(is_hex_char(short[k]));
        }
    }
    is_ascii_chars_encode_utf8(short);
    let bytes = encode_utf8(short);
    assert(is_hex_char(short[2 * i]) && is_hex_char(short[2 * i + 1]));
    assert(bytes[2 * i] == short[2 * i] as u8);
    assert(bytes[2 * i + 1] == short[2 * i + 1] as u8);
}

/// What is no key is refused: a text of another length than 64 bytes by its length, and
/// one of that length because of its digits.
pub proof fn what_is_no_key_is_refused(text: Seq<char>)
    ensures
        ({
            let length = encode_utf8(trimmed(text)).len();
            &&& length != 64 ==> key_of(text) == Err::<Seq<u8>, Seq<Seq<char>>>(
                seq!["expected 64 hex chars, got "@ + decimal(length)],
            )
            &&& length == 64 && (exists|i: int|
                0 <= i < trimmed(text).len() && !is_hex_char(#[trigger] trimmed(text)[i]))
                ==> key_of(text) == Err::<Seq<u8>, Seq<Seq<char>>>(
                seq!["invalid hex in key"@, "invalid digit found in string"@],
            )
        }),
{
    only_digits_are_a_key(text);
}

/// The key and the record of the pairing are two files of one folder.
pub proof fn files_stand_in_one_folder()
    ensures
        identity_file().folder == Folder::Root && current_file().folder == Folder::Root,
        bridge_folder().folder == Folder::Root,
        identity_file().parts == bridge_folder().parts.push("identity.key"@),
        current_file().parts == bridge_folder().parts.push("current.json"@),
        bridge_folder().parts == seq!["bridge"@],
{
    assert(identity_file().parts =~= bridge_folder().parts.push("identity.key"@));
    assert(current_file().parts =~= bridge_folder().parts.push("current.json"@));
}

/// An identity comes from the key file where there is one: its key is used as it is, and
/// a file that holds none, or that cannot be read, is an error that says so; only where
/// there is no file is the identity new.
pub proof fn identity_is_that_of_the_file(
    identity: IdentityView,
    key: Seq<u8>,
    text: Seq<char>,
    error: Seq<Seq<char>>,
    unix: bool,
)
    requires
        key.len() == 32,
    ensures
        comes_from(identity, Ok(Some(hex_of(key))), unix) ==> identity == IdentityView::Known(key),
        comes_from(identity, Ok(Some(text)), unix) ==> identity == match key_of(text) {
            Ok(known) => IdentityView::Known(known),
            Err(why) => IdentityView::Failed(why),
        },
        comes_from(identity, Err(error), unix) ==> identity == IdentityView::Failed(
            seq!["reading bridge identity"@] + error,
        ),
        comes_from(identity, Ok(None), unix) ==> identity is New && identity->save == fresh(
            identity_steps(identity->New_secret, unix),
        ),
{
    crate::identity::written_key_is_read_back(key);
}

/// A new identity is saved before it is used: its folder is made if need be, the key is
/// written in hexadecimal to the key file, and on Unix the file is then closed to others.
/// That it cannot be written is an error that says so.
pub proof fn new_identity_is_saved(secret: Seq<u8>, unix: bool, replies: Seq<ReplyView>)
    ensures
        ({
            let steps = identity_steps(secret, unix);
            let folder = FilePathView { folder: Folder::Root, parts: seq!["bridge"@] };
            let file = FilePathView {
                folder: Folder::Root,
                parts: seq!["bridge"@, "identity.key"@],
            };
            let write = StepView::WriteText { file, text: hex_of(secret) };
            &&& steps.len() == if unix {
                3int
            } else {
                2int
            }
            &&& steps[0].step == StepView::CreateFolder(folder) && steps[0].on_failure
                == OnFailureView::Skip(0)
            &&& steps[1].step == write && steps[1].on_failure == OnFailureView::Explain(
                "writing bridge identity"@,
            )
            &&& unix ==> steps[2].step == StepView::Restrict(file) && steps[2].on_failure
                == OnFailureView::Skip(0)
            &&& ends_well(steps, replies) ==> does(steps, replies, seq![write])
        }),
{
    let steps = identity_steps(secret, unix);
    reveal_with_fuel(demanded, 4);
    assert(demanded(steps) =~= seq![steps[1].step]);
    if ends_well(steps, replies) {
        steady_plan_is_done(steps, replies);
    }
}

/// A new identity has the key that it was made of: that is the key which is written to the
/// key file, which the file gives back, and which is used once it is saved.
pub proof fn new_identity_keeps_its_key(secret: Seq<u8>, unix: bool)
    requires
        secret.len() == 32,
    ensures
        made_of(secret, unix) is New,
        settled_key(made_of(secret, unix), None) == Ok::<Seq<u8>, Seq<Seq<char>>>(secret),
        made_of(secret, unix)->save.failure is None,
        ({
            let steps = made_of(secret, unix)->save.steps;
            &&& steps[1].step is WriteText
            &&& key_of(steps[1].step->WriteText_text) == Ok::<Seq<u8>, Seq<Seq<char>>>(secret)
            &&& steps == identity_steps(secret, unix)
        }),
{
    crate::identity::written_key_is_read_back(secret);
}

/// The key of an identity is its own: that of the file, or the new one where it could be
/// saved; where it could not, there is none.
pub proof fn key_is_that_of_the_identity(
    secret: Seq<u8>,
    save: PlanView,
    error: Seq<Seq<char>>,
    failure: Option<Seq<Seq<char>>>,
)
    ensures
        settled_key(IdentityView::Known(secret), failure) == Ok::<Seq<u8>, Seq<Seq<char>>>(secret),
        settled_key(IdentityView::New { secret, save }, None)
            == Ok::<Seq<u8>, Seq<Seq<char>>>(secret),
        settled_key(IdentityView::New { secret, save }, Some(error))
            == Err::<Seq<u8>, Seq<Seq<char>>>(error),
        settled_key(IdentityView::Failed(error), failure)
            == Err::<Seq<u8>, Seq<Seq<char>>>(error),
{
}

} // verus!
