//! The upload request and its JSON wire body.
//!
//! The body sent to the service's content endpoint is a JSON object with the
//! members `data`, `id` (only when the caller chose an identifier),
//! `is_encrypted` (always advertised as false by this client) and `expire`
//! (only when an expiry was chosen), in that order.

use vstd::prelude::*;

use crate::jsonfmt::{append_json_string, decimal_digits, json_string, u64_to_decimal};

verus! {

/// One upload to the paste service, as plain values.
#[derive(Debug, Clone)]
pub struct UploadRequest {
    /// The full text payload.
    pub data: String,
    /// The caller-chosen identifier, if any.
    pub id: Option<String>,
    /// Whether the payload is encrypted; this client never encrypts.
    pub is_encrypted: bool,
    /// Seconds until expiry; `None` means no expiry.
    pub expire: Option<u64>,
}

impl UploadRequest {
    /// The exact JSON body for this request.
    pub open spec fn body_spec(self) -> Seq<char> {
        "{\"data\":"@ + json_string(self.data@) + (match self.id {
            Some(i) => ",\"id\":"@ + json_string(i@),
            None => Seq::<char>::empty(),
        }) + ",\"is_encrypted\":"@ + (if self.is_encrypted {
            "true"@
        } else {
            "false"@
        }) + (match self.expire {
            Some(n) => ",\"expire\":"@ + decimal_digits(n as nat),
            None => Seq::<char>::empty(),
        }) + "}"@
    }

    /// Build a request; the payload is never marked encrypted.
    pub fn new(data: String, id: Option<String>, expire: Option<u64>) -> (r: UploadRequest)
        ensures
            r.data == data,
            r.id == id,
            r.is_encrypted == false,
            r.expire == expire,
    {
        UploadRequest { data, id, is_encrypted: false, expire }
    }

    /// Render the JSON body to send.
    pub fn body(&self) -> (r: String)
        ensures
            r@ == self.body_spec(),
    {
        let mut out = "{\"data\":".to_owned();
        append_json_string(&mut out, self.data.as_str());
        match &self.id {
            Some(i) => {
                out.append(",\"id\":");
                append_json_string(&mut out, i.as_str());
            },
            None => {},
        }
        out.append(",\"is_encrypted\":");
        if self.is_encrypted {
            out.append("true");
        } else {
            out.append("false");
        }
        match self.expire {
            Some(n) => {
                out.append(",\"expire\":");
                let num = u64_to_decimal(n);
                out.append(num.as_str());
            },
            None => {},
        }
        out.append("}");
        proof {
            assert(out@ =~= self.body_spec());
        }
        out
    }
}

} // verus!
