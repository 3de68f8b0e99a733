//! The compute side of the image-upload path: choosing the stored file's
//! extension and name, and assembling the public URL handed back as an
//! `imageRef`. Reading the multipart body and talking to the object store
//! are I/O and live with the caller.

use vstd::prelude::*;

use crate::ids::{spec_uuid_text, uuid_chars};
use crate::message::UserId;
use crate::wire::{chars_to_string, copy_str, push_str_chars, str_to_chars};

verus! {

/// The extension taken from an uploaded file's name: everything after the
/// last dot, or the whole name if it has none.
pub open spec fn spec_extension_of(name: Seq<char>) -> Seq<char>
    decreases name.len(),
{
    if name.len() == 0 {
        name
    } else if name.last() == '.' {
        Seq::empty()
    } else {
        spec_extension_of(name.drop_last()).push(name.last())
    }
}

/// The extension used for an upload: the uploaded name's extension, or
/// "jpg" when no name came with the field.
pub fn pick_extension(file_name: Option<&str>) -> (r: String)
    ensures
        match file_name {
            Some(n) => r@ == spec_extension_of(n@),
            None => r@ == "jpg"@,
        },
{
    match file_name {
        None => copy_str("jpg"),
        Some(n) => {
            let cs = str_to_chars(n);
            let mut out: Vec<char> = Vec::new();
            let mut i: usize = 0;
            while i < cs.len()
                invariant
                    i <= cs@.len(),
                    cs@ == n@,
                    out@ == spec_extension_of(n@.take(i as int)),
                decreases cs@.len() - i,
            {
                proof {
                    assert(n@.take(i + 1).drop_last() =~= n@.take(i as int));
                }
                if cs[i] == '.' {
                    out = Vec::new();
                    proof {
                        assert(out@ =~= spec_extension_of(n@.take(i + 1)));
                    }
                } else {
                    out.push(cs[i]);
                }
                i += 1;
            }
            proof {
                assert(n@.take(n@.len() as int) =~= n@);
            }
            chars_to_string(&out)
        }
    }
}

/// The object name an upload is stored under: the uploader's identity
/// text, an underscore, a fresh token's identity text, a dot and the
/// extension — unique as long as the token is.
pub open spec fn spec_object_name(user: int, token: int, ext: Seq<char>) -> Seq<char> {
    spec_uuid_text(user as u128) + "_"@ + spec_uuid_text(token as u128) + "."@ + ext
}

/// Assemble the object name for an upload.
pub fn make_object_name(user: UserId, token: UserId, ext: &str) -> (r: String)
    ensures
        r@ == spec_object_name(user as int, token as int, ext@),
{
    let mut out: Vec<char> = uuid_chars(user);
    push_str_chars(&mut out, "_");
    let mut t = uuid_chars(token);
    out.append(&mut t);
    push_str_chars(&mut out, ".");
    let mut e = str_to_chars(ext);
    out.append(&mut e);
    proof {
        assert(out@ =~= spec_object_name(user as int, token as int, ext@));
    }
    chars_to_string(&out)
}

/// The publicly resolvable URL of a stored object: base, bucket and
/// object name joined by slashes.
pub open spec fn spec_image_url(base: Seq<char>, bucket: Seq<char>, name: Seq<char>) -> Seq<char> {
    base + "/"@ + bucket + "/"@ + name
}

/// Assemble the public URL for a stored object.
pub fn make_image_url(base: &str, bucket: &str, name: &str) -> (r: String)
    ensures
        r@ == spec_image_url(base@, bucket@, name@),
{
    let mut out: Vec<char> = str_to_chars(base);
    push_str_chars(&mut out, "/");
    let mut b = str_to_chars(bucket);
    out.append(&mut b);
    push_str_chars(&mut out, "/");
    let mut n = str_to_chars(name);
    out.append(&mut n);
    proof {
        assert(out@ =~= spec_image_url(base@, bucket@, name@));
    }
    chars_to_string(&out)
}

} // verus!
