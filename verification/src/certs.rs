//! Selecting certificates and keys from parsed PEM material.
//!
//! The certificate files are read and PEM-parsed outside this crate;
//! their items arrive here as plain bytes. This module holds the
//! selection rules: which PEM items count as private keys, and that the
//! first key of the key file is the one used.

use vstd::prelude::*;

verus! {

/// One item of a PEM file, reduced to what the selection reads.
#[derive(Debug)]
pub enum PemItem {
    /// An RSA private key, DER bytes.
    RsaKey(Vec<u8>),
    /// A PKCS#8 private key, DER bytes.
    Pkcs8Key(Vec<u8>),
    /// A SEC1 elliptic-curve private key, DER bytes.
    EcKey(Vec<u8>),
    /// Anything else (certificates, CRLs, ...).
    Other,
}

/// How the certificate cache can fail.
#[derive(Debug)]
pub enum CacheError {
    /// Reading a file failed.
    Io(String),
    /// The TLS library rejected the material.
    Tls(String),
    /// The key file holds no private key.
    NoKey,
}

/// Whether a PEM item is a private key, and its bytes if so.
pub open spec fn spec_key_of(item: PemItem) -> Option<Seq<u8>> {
    match item {
        PemItem::RsaKey(k) => Some(k@),
        PemItem::Pkcs8Key(k) => Some(k@),
        PemItem::EcKey(k) => Some(k@),
        PemItem::Other => None,
    }
}

/// The private keys of a PEM file, in file order.
pub open spec fn spec_keys_of(items: Seq<PemItem>) -> Seq<Seq<u8>>
    decreases items.len(),
{
    if items.len() == 0 {
        Seq::empty()
    } else {
        let rest = spec_keys_of(items.drop_last());
        match spec_key_of(items.last()) {
            Some(k) => rest + seq![k],
            None => rest,
        }
    }
}

/// Keeps the private keys of a parsed PEM file, in order: RSA, PKCS#8 and
/// elliptic-curve keys count, everything else is dropped.
pub fn keys_of_items(items: Vec<PemItem>) -> (r: Vec<Vec<u8>>)
    ensures
        r@.map_values(|k: Vec<u8>| k@) == spec_keys_of(items@),
{
    let ghost iv = items@;
    let mut r: Vec<Vec<u8>> = Vec::new();
    let mut rem = items;
    let mut i: usize = 0;
    let n = rem.len();
    while i < n
        invariant
            i <= n,
            n == iv.len(),
            rem@ == iv.skip(i as int),
            r@.map_values(|k: Vec<u8>| k@) == spec_keys_of(iv.take(i as int)),
        decreases n - i,
    {
        let ghost pre = r@.map_values(|k: Vec<u8>| k@);
        let item = rem.remove(0);
        proof {
            assert(iv.skip(i as int)[0] == iv[i as int]);
            assert(iv.skip(i as int).remove(0) =~= iv.skip(i + 1 as int));
            assert(iv.take(i + 1 as int).drop_last() =~= iv.take(i as int));
            assert(iv.take(i + 1 as int).last() == iv[i as int]);
        }
        match item {
            PemItem::RsaKey(k) => {
                r.push(k);
                proof {
                    assert(r@.map_values(|k2: Vec<u8>| k2@) =~= pre.push(
                        spec_key_of(iv[i as int])->Some_0,
                    ));
                    assert(spec_keys_of(iv.take(i + 1 as int)) =~= r@.map_values(
                        |k2: Vec<u8>| k2@,
                    ));
                }
            },
            PemItem::Pkcs8Key(k) => {
                r.push(k);
                proof {
                    assert(r@.map_values(|k2: Vec<u8>| k2@) =~= pre.push(
                        spec_key_of(iv[i as int])->Some_0,
                    ));
                    assert(spec_keys_of(iv.take(i + 1 as int)) =~= r@.map_values(
                        |k2: Vec<u8>| k2@,
                    ));
                }
            },
            PemItem::EcKey(k) => {
                r.push(k);
                proof {
                    assert(r@.map_values(|k2: Vec<u8>| k2@) =~= pre.push(
                        spec_key_of(iv[i as int])->Some_0,
                    ));
                    assert(spec_keys_of(iv.take(i + 1 as int)) =~= r@.map_values(
                        |k2: Vec<u8>| k2@,
                    ));
                }
            },
            PemItem::Other => {
                proof {
                    assert(spec_keys_of(iv.take(i + 1 as int)) =~= pre);
                }
            },
        }
        i = i + 1;
    }
    proof {
        assert(iv.take(iv.len() as int) =~= iv);
    }
    r
}

/// The key the node uses: the first one of its key file. A key file with
/// no keys is the `NoKey` error, and nothing else is.
pub fn first_key(keys: Vec<Vec<u8>>) -> (r: Result<Vec<u8>, CacheError>)
    ensures
        match r {
            Result::Ok(k) => keys@.len() > 0 && k@ == keys@[0]@,
            Result::Err(e) => keys@.len() == 0 && e is NoKey,
        },
{
    let mut keys = keys;
    if keys.len() == 0 {
        Err(CacheError::NoKey)
    } else {
        Ok(keys.remove(0))
    }
}

} // verus!
