//! Connection façades: one configuration value per transport kind.
//!
//! Each value is side-effect-free to construct.  Its `new_stream` factory
//! returns a pair: a plan describing the transport-specific setup to
//! perform (socket bind, multicast join, TLS handshake — none of it done
//! here), and a fresh exchange, still `Connecting`, that accepts requests
//! at once and serves them when the transport is driven to readiness.

use vstd::prelude::*;

use crate::addr::{spec_mdns_ipv4_group, spec_mdns_ipv6_group, mdns_ipv4_group, mdns_ipv6_group, SockAddr};
use crate::error::ClientError;
use crate::exchange::Exchange;
use crate::tls::{add_trust_anchor, anchor_accepted, clone_client_config, new_client_config};

verus! {

/// A caller-supplied trust anchor: one certificate in DER encoding.
pub struct CertificateDer {
    pub der: Vec<u8>,
}

/// The transport-specific setup a caller must drive to completion before
/// the paired exchange can enter `Running`.
pub enum ConnectPlan {
    /// Bind a local UDP socket and converse with this name server.
    Udp { name_server: SockAddr },
    /// Join this multicast group for a one-shot query, honouring the
    /// packet TTL and outbound interface selectors when given.
    Multicast {
        group: SockAddr,
        packet_ttl: Option<u32>,
        ipv4_if: Option<u32>,
        ipv6_if: Option<u32>,
    },
    /// Perform a TLS handshake with this name server, expecting this
    /// certificate subject name, under this TLS client configuration.
    Https { name_server: SockAddr, dns_name: String, client_config: rustls::ClientConfig },
}

/// UDP-based DNS client connection configuration.
pub struct UdpClientConnection {
    pub name_server: SockAddr,
}

impl UdpClientConnection {
    /// Record the name server to query over UDP.  Construction touches no
    /// socket and cannot fail.
    pub fn new(name_server: SockAddr) -> (r: Result<Self, ClientError>)
        ensures
            r matches Ok(c) && c.name_server == name_server,
    {
        Ok(UdpClientConnection { name_server })
    }

    /// The factory operation: a plan to bind a UDP socket toward the name
    /// server, and a fresh unsigned exchange wrapping a multiplexer.
    pub fn new_stream(&self) -> (r: (ConnectPlan, Exchange))
        ensures
            r.0 matches ConnectPlan::Udp { name_server } && name_server == self.name_server,
            r.1.wf(),
            r.1.state is Connecting,
            r.1.mux.pending@ == Seq::<u16>::empty(),
            r.1.mux.next_id == 0,
            r.1.mux.signer is None,
            r.1.queued@.len() == 0,
    {
        (ConnectPlan::Udp { name_server: self.name_server }, Exchange::new(None))
    }
}

/// Multicast (mDNS) based DNS client connection configuration, for
/// one-shot discovery queries.
pub struct MdnsClientConnection {
    pub multicast_addr: SockAddr,
    pub packet_ttl: Option<u32>,
    pub ipv4_if: Option<u32>,
    pub ipv6_if: Option<u32>,
}

impl MdnsClientConnection {
    /// Associate the connection with the well-known IPv4 multicast group,
    /// with an optional packet TTL and outbound interface address.
    pub fn new_ipv4(packet_ttl: Option<u32>, ipv4_if: Option<u32>) -> (r: Self)
        ensures
            r.multicast_addr == spec_mdns_ipv4_group(),
            r.packet_ttl == packet_ttl,
            r.ipv4_if == ipv4_if,
            r.ipv6_if is None,
    {
        MdnsClientConnection { multicast_addr: mdns_ipv4_group(), packet_ttl, ipv4_if, ipv6_if: None }
    }

    /// Associate the connection with the well-known IPv6 multicast group,
    /// with an optional packet TTL and outbound interface scope.
    pub fn new_ipv6(packet_ttl: Option<u32>, ipv6_if: Option<u32>) -> (r: Self)
        ensures
            r.multicast_addr == spec_mdns_ipv6_group(),
            r.packet_ttl == packet_ttl,
            r.ipv4_if is None,
            r.ipv6_if == ipv6_if,
    {
        MdnsClientConnection { multicast_addr: mdns_ipv6_group(), packet_ttl, ipv4_if: None, ipv6_if }
    }

    /// The factory operation: a plan to join the multicast group for a
    /// one-shot query, and a fresh unsigned exchange.
    pub fn new_stream(&self) -> (r: (ConnectPlan, Exchange))
        ensures
            r.0 matches ConnectPlan::Multicast { group, packet_ttl, ipv4_if, ipv6_if } && group
                == self.multicast_addr && packet_ttl == self.packet_ttl && ipv4_if == self.ipv4_if
                && ipv6_if == self.ipv6_if,
            r.1.wf(),
            r.1.state is Connecting,
            r.1.mux.pending@ == Seq::<u16>::empty(),
            r.1.mux.next_id == 0,
            r.1.mux.signer is None,
            r.1.queued@.len() == 0,
    {
        (
            ConnectPlan::Multicast {
                group: self.multicast_addr,
                packet_ttl: self.packet_ttl,
                ipv4_if: self.ipv4_if,
                ipv6_if: self.ipv6_if,
            },
            Exchange::new(None),
        )
    }
}

/// DNS-over-HTTPS client connection configuration: name server, expected
/// certificate subject name, and TLS client configuration.
pub struct HttpsClientConnection {
    pub name_server: SockAddr,
    pub dns_name: String,
    pub client_config: rustls::ClientConfig,
    /// Ghost record of the caller-supplied trust anchors (DER bytes) the
    /// configuration carries, in the order they were accepted.
    pub anchors: Ghost<Seq<Seq<u8>>>,
}

impl HttpsClientConnection {
    /// Start building an HTTPS connection, over a fresh default TLS
    /// configuration with no caller-supplied trust anchors yet.
    pub fn new() -> (r: HttpsClientConnectionBuilder)
        ensures
            r.anchors@ == Seq::<Seq<u8>>::empty(),
    {
        HttpsClientConnectionBuilder::new()
    }

    /// The factory operation: a plan to perform the TLS handshake against
    /// the configured name server, and a fresh exchange.  The framed
    /// HTTPS stream authenticates the channel, so no per-message signer
    /// is configured.
    pub fn new_stream(&self) -> (r: (ConnectPlan, Exchange))
        ensures
            r.0 matches ConnectPlan::Https { name_server, dns_name, client_config } && name_server
                == self.name_server && dns_name@ == self.dns_name@ && client_config
                == self.client_config,
            r.1.wf(),
            r.1.state is Connecting,
            r.1.mux.pending@ == Seq::<u16>::empty(),
            r.1.mux.next_id == 0,
            r.1.mux.signer is None,
            r.1.queued@.len() == 0,
    {
        (
            ConnectPlan::Https {
                name_server: self.name_server,
                dns_name: self.dns_name.clone(),
                client_config: clone_client_config(&self.client_config),
            },
            Exchange::new(None),
        )
    }
}

/// Builder for a DNS-over-HTTPS connection: collects trust material
/// before the connection value is finalized.
pub struct HttpsClientConnectionBuilder {
    pub client_config: rustls::ClientConfig,
    /// Ghost record of the caller-supplied trust anchors (DER bytes)
    /// accepted so far, in order.
    pub anchors: Ghost<Seq<Seq<u8>>>,
}

impl HttpsClientConnectionBuilder {
    /// A builder over a fresh default TLS client configuration, with no
    /// caller-supplied trust anchors yet.
    pub fn new() -> (r: HttpsClientConnectionBuilder)
        ensures
            r.anchors@ == Seq::<Seq<u8>>::empty(),
    {
        HttpsClientConnectionBuilder {
            client_config: new_client_config(),
            anchors: Ghost(Seq::empty()),
        }
    }

    /// A builder over a caller-supplied TLS client configuration, carried
    /// unmodified; no trust anchors have been added through this builder
    /// yet.
    pub fn with_client_config(client_config: rustls::ClientConfig) -> (r: Self)
        ensures
            r.client_config == client_config,
            r.anchors@ == Seq::<Seq<u8>>::empty(),
    {
        HttpsClientConnectionBuilder { client_config, anchors: Ghost(Seq::empty()) }
    }

    /// Add a custom trusted peer certificate or certificate authority to
    /// the trust store.  Malformed trust material is a configuration
    /// error, detected here and never surfaced mid-exchange; the builder
    /// is then unchanged.  An accepted anchor is appended to the record
    /// of collected anchors.
    pub fn add_ca(&mut self, ca: CertificateDer) -> (r: Result<(), ClientError>)
        ensures
            r is Ok <==> anchor_accepted(ca.der@),
            r is Ok ==> final(self).anchors@ == old(self).anchors@.push(ca.der@),
            r matches Err(e) ==> e == ClientError::Configuration && *final(self) == *old(self),
    {
        if add_trust_anchor(&mut self.client_config, &ca.der) {
            self.anchors = Ghost(self.anchors@.push(ca.der@));
            Ok(())
        } else {
            Err(ClientError::Configuration)
        }
    }

    /// Finalize the connection value with the name server's address and
    /// the DNS name its certificate must present.  The TLS configuration,
    /// with every anchor collected through `add_ca`, moves into the
    /// connection; the builder is consumed.
    pub fn build(self, name_server: SockAddr, dns_name: String) -> (r: HttpsClientConnection)
        ensures
            r.name_server == name_server,
            r.dns_name@ == dns_name@,
            r.client_config == self.client_config,
            r.anchors == self.anchors,
    {
        HttpsClientConnection {
            name_server,
            dns_name,
            client_config: self.client_config,
            anchors: self.anchors,
        }
    }
}

} // verus!
