//! Telling a remote source locator from a local path.
use vstd::prelude::*;
use vstd::utf8::encode_utf8;

verus! {

pub open spec fn http_prefix() -> Seq<u8> {
    seq![104u8, 116u8, 116u8, 112u8, 58u8, 47u8, 47u8]
}

pub open spec fn https_prefix() -> Seq<u8> {
    seq![104u8, 116u8, 116u8, 112u8, 115u8, 58u8, 47u8, 47u8]
}

pub open spec fn ssh_prefix() -> Seq<u8> {
    seq![103u8, 105u8, 116u8, 64u8]
}

pub open spec fn has_prefix(b: Seq<u8>, p: Seq<u8>) -> bool {
    p.len() <= b.len() && b.take(p.len() as int) == p
}

/// A reference names a remote repository when its text starts with
/// `http://`, `https://` or `git@`; anything else is a local path.
pub open spec fn is_remote_locator(b: Seq<u8>) -> bool {
    has_prefix(b, http_prefix()) || has_prefix(b, https_prefix()) || has_prefix(b, ssh_prefix())
}

fn starts_with_bytes(b: &[u8], p: &Vec<u8>) -> (r: bool)
    ensures
        r == has_prefix(b@, p@),
{
    if p.len() > b.len() {
        return false;
    }
    let mut i: usize = 0;
    while i < p.len()
        invariant
            p@.len() <= b@.len(),
            i <= p@.len(),
            forall|j: int| 0 <= j < i ==> b@[j] == p@[j],
        decreases p@.len() - i,
    {
        if b[i] != p[i] {
            assert(b@.take(p@.len() as int)[i as int] != p@[i as int]);
            return false;
        }
        i = i + 1;
    }
    assert(b@.take(p@.len() as int) =~= p@);
    true
}

/// Whether the source reference is a remote locator, to be cloned, rather
/// than a local path.
pub fn is_remote(reference: &str) -> (r: bool)
    ensures
        r == is_remote_locator(encode_utf8(reference@)),
{
    let b = reference.as_bytes();
    let http: Vec<u8> = vec![104u8, 116u8, 116u8, 112u8, 58u8, 47u8, 47u8];
    let https: Vec<u8> = vec![104u8, 116u8, 116u8, 112u8, 115u8, 58u8, 47u8, 47u8];
    let ssh: Vec<u8> = vec![103u8, 105u8, 116u8, 64u8];
    assert(http@ =~= http_prefix());
    assert(https@ =~= https_prefix());
    assert(ssh@ =~= ssh_prefix());
    starts_with_bytes(b, &http) || starts_with_bytes(b, &https) || starts_with_bytes(b, &ssh)
}

} // verus!
