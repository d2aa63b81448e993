//! The discovery advertiser: a guard that lets at most one advertiser live at
//! a time, and the marshalling of the services that it publishes. The calls
//! into the discovery subsystem itself are handed in by the caller.
use vstd::prelude::*;
use vstd::string::StringExecFns;
use vstd::utf8::{
    char_is_scalar, char_u32_cast, encode_scalar, encode_utf8, is_ascii_chars_encode_utf8,
};

verus! {

/// The status with which the subsystem reports success.
pub const ESP_OK: i32 = 0;

/// Why an operation of the advertiser failed.
#[derive(Clone, Copy, PartialEq, Eq, Structural, Debug)]
pub enum MdnsError {
    /// An advertiser is already live.
    AlreadyActive,
    /// A name holds a zero byte and cannot be handed to the subsystem.
    InvalidName,
    /// The subsystem reported this status, which is not `ESP_OK`.
    Subsystem(i32),
}

/// What a status of the subsystem means: success, or an error that carries
/// the status.
pub open spec fn status_outcome(status: i32) -> Result<(), MdnsError> {
    if status == ESP_OK {
        Ok(())
    } else {
        Err(MdnsError::Subsystem(status))
    }
}

/// A result without the value that success carries.
pub open spec fn outcome_of<T>(r: Result<T, MdnsError>) -> Result<(), MdnsError> {
    match r {
        Ok(_) => Ok(()),
        Err(e) => Err(e),
    }
}

/// Turns a status of the subsystem into a result.
pub fn status_result(status: i32) -> (r: Result<(), MdnsError>)
    ensures
        r == status_outcome(status),
{
    if status == ESP_OK {
        Ok(())
    } else {
        Err(MdnsError::Subsystem(status))
    }
}

/// Whether the UTF-8 bytes of `s` hold a zero byte.
pub open spec fn has_nul(s: Seq<char>) -> bool {
    encode_utf8(s).contains(0u8)
}

/// The UTF-8 bytes of a character hold a zero byte only where the character
/// is U+0000.
proof fn lemma_zero_byte_of_scalar(c: u32)
    ensures
        encode_scalar(c).contains(0u8) <==> c == 0,
{
    let bytes = encode_scalar(c);
    assert(c <= 0x7F ==> (((c & 0x7F) as u8) == 0u8 <==> c == 0)) by (bit_vector);
    assert(0xC0u8 | (((c >> 6) & 0x1F) as u8) != 0u8) by (bit_vector);
    assert(0xE0u8 | (((c >> 12) & 0x0F) as u8) != 0u8) by (bit_vector);
    assert(0xF0u8 | (((c >> 18) & 0x7) as u8) != 0u8) by (bit_vector);
    assert(0x80u8 | ((c & 0x3F) as u8) != 0u8) by (bit_vector);
    assert(0x80u8 | (((c >> 6) & 0x3F) as u8) != 0u8) by (bit_vector);
    assert(0x80u8 | (((c >> 12) & 0x3F) as u8) != 0u8) by (bit_vector);
    if c == 0 {
        assert(bytes[0] == 0u8);
    }
}

/// A string holds a zero byte exactly where it holds the character U+0000.
pub proof fn lemma_has_nul_iff_nul_char(s: Seq<char>)
    ensures
        has_nul(s) <==> s.contains('\0'),
    decreases s.len(),
{
    if s.len() > 0 {
        char_is_scalar(s[0]);
        let first = s[0] as u32;
        let head = encode_scalar(first);
        let tail = encode_utf8(s.drop_first());
        lemma_has_nul_iff_nul_char(s.drop_first());
        lemma_zero_byte_of_scalar(first);
        assert(first == 0 <==> s[0] == '\0') by {
            char_u32_cast(s[0], first);
            char_u32_cast('\0', 0u32);
        }
        assert(encode_utf8(s) == head + tail);
        if (head + tail).contains(0u8) {
            let i = choose|i: int| 0 <= i < (head + tail).len() && (head + tail)[i] == 0u8;
            if i < head.len() {
                assert(head[i] == 0u8);
                assert(s[0] == '\0');
            } else {
                assert(tail[i - head.len()] == 0u8);
                let k = choose|k: int| 0 <= k < s.drop_first().len() && s.drop_first()[k] == '\0';
                assert(s[k + 1] == '\0');
            }
        }
        if s.contains('\0') {
            let k = choose|k: int| 0 <= k < s.len() && s[k] == '\0';
            if k == 0 {
                let j = choose|j: int| 0 <= j < head.len() && head[j] == 0u8;
                assert((head + tail)[j] == 0u8);
            } else {
                assert(s.drop_first()[k - 1] == '\0');
                let j = choose|j: int| 0 <= j < tail.len() && tail[j] == 0u8;
                assert((head + tail)[head.len() + j] == 0u8);
            }
        }
    }
}

/// The bytes of `s` as a C string: its UTF-8 bytes and a closing zero.
pub open spec fn c_string_bytes(s: Seq<char>) -> Seq<u8> {
    encode_utf8(s).push(0u8)
}

/// The C string of `s`, or `InvalidName` where `s` holds a zero byte.
pub fn c_string(s: &str) -> (r: Result<Vec<u8>, MdnsError>)
    ensures
        match r {
            Ok(bytes) => !has_nul(s@) && bytes@ == c_string_bytes(s@),
            Err(e) => has_nul(s@) && e == MdnsError::InvalidName,
        },
{
    let bytes = s.as_bytes();
    let n = bytes.len();
    let mut out: Vec<u8> = Vec::new();
    let mut i: usize = 0;
    while i < n
        invariant
            i <= n,
            n == bytes@.len(),
            bytes@ == encode_utf8(s@),
            out@ == bytes@.take(i as int),
            forall|j: int| 0 <= j < i ==> bytes@[j] != 0u8,
        decreases n - i,
    {
        if bytes[i] == 0 {
            return Err(MdnsError::InvalidName);
        }
        out.push(bytes[i]);
        assert(out@ =~= bytes@.take(i + 1));
        i += 1;
    }
    assert(bytes@.take(n as int) =~= bytes@);
    out.push(0);
    Ok(out)
}

/// One service to advertise.
pub struct MdnsService {
    pub instance_name: Option<String>,
    pub service_type: String,
    pub protocol: String,
    pub port: u16,
    pub txt: Vec<(String, String)>,
}

/// A service as the subsystem takes it: every string a C string, in the
/// order of the fields and of the text records.
pub struct ServiceRecord {
    pub instance_name: Option<Vec<u8>>,
    pub service_type: Vec<u8>,
    pub protocol: Vec<u8>,
    pub port: u16,
    pub txt: Vec<(Vec<u8>, Vec<u8>)>,
}

impl Default for MdnsService {
    /// A service without an instance name or text records, with empty type
    /// and protocol and port 0.
    fn default() -> (service: Self)
        ensures
            service.instance_name is None,
            service.service_type@ == Seq::<char>::empty(),
            service.protocol@ == Seq::<char>::empty(),
            service.port == 0,
            service.txt@ == Seq::<(String, String)>::empty(),
    {
        MdnsService {
            instance_name: None,
            service_type: String::new(),
            protocol: String::new(),
            port: 0,
            txt: Vec::new(),
        }
    }
}

impl MdnsService {
    /// No string of the service holds a zero byte.
    pub open spec fn is_valid(&self) -> bool {
        &&& self.instance_name matches Some(name) ==> !has_nul(name@)
        &&& !has_nul(self.service_type@)
        &&& !has_nul(self.protocol@)
        &&& forall|i: int|
            0 <= i < self.txt@.len() ==> !has_nul((#[trigger] self.txt@[i]).0@) && !has_nul(
                self.txt@[i].1@,
            )
    }
}

impl ServiceRecord {
    /// The record holds `service`: the same port, each string as its C
    /// string, an instance name exactly where the service has one, and the
    /// text records one for one in the same order.
    pub open spec fn describes(&self, service: &MdnsService) -> bool {
        &&& match (self.instance_name, service.instance_name) {
            (Some(bytes), Some(name)) => bytes@ == c_string_bytes(name@),
            (None, None) => true,
            _ => false,
        }
        &&& self.service_type@ == c_string_bytes(service.service_type@)
        &&& self.protocol@ == c_string_bytes(service.protocol@)
        &&& self.port == service.port
        &&& self.txt@.len() == service.txt@.len()
        &&& forall|i: int|
            0 <= i < self.txt@.len() ==> (#[trigger] self.txt@[i]).0@ == c_string_bytes(
                service.txt@[i].0@,
            ) && self.txt@[i].1@ == c_string_bytes(service.txt@[i].1@)
    }

    /// Marshals `service` for the subsystem, or refuses it as `InvalidName`
    /// where one of its strings holds a zero byte.
    pub fn new(service: &MdnsService) -> (r: Result<ServiceRecord, MdnsError>)
        ensures
            match r {
                Ok(record) => service.is_valid() && record.describes(service),
                Err(e) => !service.is_valid() && e == MdnsError::InvalidName,
            },
    {
        let instance_name = match &service.instance_name {
            Some(name) => match c_string(name.as_str()) {
                Ok(bytes) => Some(bytes),
                Err(e) => {
                    return Err(e);
                },
            },
            None => None,
        };
        let service_type = match c_string(service.service_type.as_str()) {
            Ok(bytes) => bytes,
            Err(e) => {
                return Err(e);
            },
        };
        let protocol = match c_string(service.protocol.as_str()) {
            Ok(bytes) => bytes,
            Err(e) => {
                return Err(e);
            },
        };
        let mut txt: Vec<(Vec<u8>, Vec<u8>)> = Vec::new();
        let n = service.txt.len();
        let mut i: usize = 0;
        while i < n
            invariant
                i <= n,
                n == service.txt@.len(),
                txt@.len() == i,
                forall|j: int|
                    0 <= j < i ==> !has_nul((#[trigger] service.txt@[j]).0@) && !has_nul(
                        service.txt@[j].1@,
                    ),
                forall|j: int|
                    0 <= j < i ==> (#[trigger] txt@[j]).0@ == c_string_bytes(service.txt@[j].0@)
                        && txt@[j].1@ == c_string_bytes(service.txt@[j].1@),
            decreases n - i,
        {
            let key = match c_string(service.txt[i].0.as_str()) {
                Ok(bytes) => bytes,
                Err(e) => {
                    return Err(e);
                },
            };
            let value = match c_string(service.txt[i].1.as_str()) {
                Ok(bytes) => bytes,
                Err(e) => {
                    return Err(e);
                },
            };
            txt.push((key, value));
            i += 1;
        }
        Ok(ServiceRecord { instance_name, service_type, protocol, port: service.port, txt })
    }
}

/// The port on which the node serves HTTP.
pub const HTTP_PORT: u16 = 80;

/// The services that the node advertises: its HTTP server, and the same
/// server as a source of metrics, both over TCP on `HTTP_PORT`, without
/// instance names or text records.
pub fn advertised_services() -> (services: Vec<MdnsService>)
    ensures
        services@.len() == 2,
        services@[0].service_type@ == "_http"@,
        services@[1].service_type@ == "_prometheus-http"@,
        forall|i: int|
            0 <= i < 2 ==> {
                let service = #[trigger] services@[i];
                &&& service.instance_name is None
                &&& service.protocol@ == "_tcp"@
                &&& service.port == HTTP_PORT
                &&& service.txt@.len() == 0
                &&& service.is_valid()
            },
{
    let http = MdnsService {
        instance_name: None,
        service_type: String::from_str("_http"),
        protocol: String::from_str("_tcp"),
        port: HTTP_PORT,
        txt: Vec::new(),
    };
    let metrics = MdnsService {
        instance_name: None,
        service_type: String::from_str("_prometheus-http"),
        protocol: String::from_str("_tcp"),
        port: HTTP_PORT,
        txt: Vec::new(),
    };
    proof {
        reveal_strlit("_http");
        reveal_strlit("_prometheus-http");
        reveal_strlit("_tcp");
        is_ascii_chars_encode_utf8("_http"@);
        is_ascii_chars_encode_utf8("_prometheus-http"@);
        is_ascii_chars_encode_utf8("_tcp"@);
    }
    let mut services = Vec::new();
    services.push(http);
    services.push(metrics);
    services
}

/// The lifecycle of the advertiser over the flag that says whether one is
/// live: the flag after an attempt to create one, and the attempt's outcome.
/// `status` is what the subsystem's initialisation reports; while an
/// advertiser is live it is not asked.
pub open spec fn create(live: bool, status: i32) -> (bool, Result<(), MdnsError>) {
    if live {
        (true, Err(MdnsError::AlreadyActive))
    } else {
        (status == ESP_OK, status_outcome(status))
    }
}

/// The flag after a teardown: no advertiser is live, whatever went before.
pub open spec fn released(live: bool) -> bool {
    false
}

/// While an advertiser is live, creating another fails as already active and
/// leaves the first live; once it is torn down, creation succeeds again
/// wherever the subsystem initialises.
pub proof fn lemma_one_advertiser_at_a_time(status: i32)
    ensures
        create(true, status) == (true, Err::<(), MdnsError>(MdnsError::AlreadyActive)),
        create(released(true), ESP_OK) == (true, Ok::<(), MdnsError>(())),
        create(released(true), status).1 == status_outcome(status),
{
}

/// Whether an advertiser is live. There is one such state for the process.
pub struct AdvertiserState {
    taken: bool,
}

impl AdvertiserState {
    /// Whether an advertiser is live.
    pub closed spec fn live(&self) -> bool {
        self.taken
    }

    /// The state at start: no advertiser is live.
    pub fn new() -> (state: Self)
        ensures
            !state.live(),
    {
        AdvertiserState { taken: false }
    }

    /// Whether an advertiser is live.
    pub fn is_live(&self) -> (live: bool)
        ensures
            live == self.live(),
    {
        self.taken
    }
}

/// The live advertiser.
#[derive(Debug)]
pub struct EspMdns {
    _private: (),
}

/// The advertiser once its hostname is set: services are added through it.
#[derive(Debug)]
pub struct EspMdnsServer {
    _private: (),
}

impl EspMdns {
    /// Creates the advertiser. While one is live this fails as already
    /// active, and `init` is not called. Otherwise `init` initialises the
    /// subsystem and reports its status: on `ESP_OK` the advertiser is live,
    /// on any other status the error carries it and none is live.
    pub fn new<F: FnOnce() -> i32>(state: &mut AdvertiserState, init: F) -> (r: Result<
        EspMdns,
        MdnsError,
    >)
        requires
            !old(state).live() ==> init.requires(()),
        ensures
            old(state).live() ==> final(state).live() && outcome_of(r) == Err::<(), MdnsError>(
                MdnsError::AlreadyActive,
            ),
            exists|status: i32|
                (old(state).live() || init.ensures((), status)) && (final(state).live(), outcome_of(r))
                    == #[trigger] create(old(state).live(), status),
    {
        if state.taken {
            assert(create(true, ESP_OK).0);
            return Err(MdnsError::AlreadyActive);
        }
        let status = init();
        match status_result(status) {
            Ok(()) => {
                state.taken = true;
                assert((true, outcome_of(Ok::<EspMdns, MdnsError>(EspMdns { _private: () })))
                    == create(false, status));
                Ok(EspMdns { _private: () })
            },
            Err(e) => {
                assert((false, outcome_of(Err::<EspMdns, MdnsError>(e))) == create(false, status));
                Err(e)
            },
        }
    }

    /// Sets the hostname under which the advertiser answers. `set_hostname`
    /// gets the hostname as a C string and reports the subsystem's status.
    /// A hostname with a zero byte is refused before any call.
    pub fn server<F: FnOnce(Vec<u8>) -> i32>(
        &mut self,
        hostname: &str,
        set_hostname: F,
    ) -> (r: Result<EspMdnsServer, MdnsError>)
        requires
            forall|name: Vec<u8>|
                name@ == c_string_bytes(hostname@) ==> #[trigger] set_hostname.requires((name,)),
        ensures
            has_nul(hostname@) ==> outcome_of(r) == Err::<(), MdnsError>(MdnsError::InvalidName),
            !has_nul(hostname@) ==> exists|name: Vec<u8>, status: i32|
                name@ == c_string_bytes(hostname@) && #[trigger] set_hostname.ensures(
                    (name,),
                    status,
                ) && outcome_of(r) == status_outcome(status),
    {
        let name = match c_string(hostname) {
            Ok(name) => name,
            Err(e) => {
                return Err(e);
            },
        };
        let status = set_hostname(name);
        match status_result(status) {
            Ok(()) => Ok(EspMdnsServer { _private: () }),
            Err(e) => Err(e),
        }
    }

    /// Tears the advertiser down: `free` releases the subsystem, and
    /// afterwards none is live, whatever failed before.
    pub fn release<F: FnOnce()>(self, state: &mut AdvertiserState, free: F)
        requires
            free.requires(()),
        ensures
            free.ensures((), ()),
            final(state).live() == released(old(state).live()),
    {
        free();
        state.taken = false;
    }
}

impl EspMdnsServer {
    /// Publishes one service. `publish` gets the service as the subsystem
    /// takes it and reports the subsystem's status. A service with a zero
    /// byte in one of its strings is refused before any call.
    pub fn add_service<F: FnOnce(ServiceRecord) -> i32>(
        &mut self,
        service: MdnsService,
        publish: F,
    ) -> (r: Result<(), MdnsError>)
        requires
            forall|record: ServiceRecord|
                record.describes(&service) ==> #[trigger] publish.requires((record,)),
        ensures
            !service.is_valid() ==> r == Err::<(), MdnsError>(MdnsError::InvalidName),
            service.is_valid() ==> exists|record: ServiceRecord, status: i32|
                record.describes(&service) && #[trigger] publish.ensures((record,), status) && r
                    == status_outcome(status),
    {
        let record = match ServiceRecord::new(&service) {
            Ok(record) => record,
            Err(e) => {
                return Err(e);
            },
        };
        let status = publish(record);
        status_result(status)
    }
}

} // verus!
