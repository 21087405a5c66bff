//! The probes: whether the process is alive, and whether the server accepted it.
use vstd::prelude::*;

verus! {

/// What the alive probe asks.
pub open spec fn alive_probe() -> Seq<u8> {
    seq![71u8, 69, 84, 32, 47, 104, 101, 97, 108, 116, 104, 122]
}

/// What the ready probe asks.
pub open spec fn ready_probe() -> Seq<u8> {
    seq![71u8, 69, 84, 32, 47, 114, 101, 97, 100, 121, 122]
}

/// Whether a request begins with a probe.
pub open spec fn asks(request: Seq<u8>, probe: Seq<u8>) -> bool {
    probe.len() <= request.len() && request.take(probe.len() as int) == probe
}

fn asks_for(request: &Vec<u8>, probe: &[u8]) -> (r: bool)
    ensures
        r == asks(request@, probe@),
{
    if probe.len() > request.len() {
        return false;
    }
    let mut i: usize = 0;
    while i < probe.len()
        invariant
            i <= probe@.len() <= request@.len(),
            forall|k: int| 0 <= k < i ==> request@[k] == probe@[k],
        decreases probe@.len() - i,
    {
        if request[i] != probe[i] {
            proof {
                assert(request@.take(probe@.len() as int)[i as int] != probe@[i as int]);
            }
            return false;
        }
        i += 1;
    }
    proof {
        assert(request@.take(probe@.len() as int) =~= probe@);
    }
    true
}

/// Whether a probe is answered with yes: `/healthz` while the process is alive, `/readyz` only once
/// the server has accepted our hello, because that probe is the only thing outside the protocol that
/// knows whether a bot is linked.
pub fn healthy(request: &Vec<u8>, linked: bool) -> (r: bool)
    ensures
        r == if asks(request@, ready_probe()) {
            linked
        } else {
            asks(request@, alive_probe())
        },
{
    let ready: [u8; 11] = [71, 69, 84, 32, 47, 114, 101, 97, 100, 121, 122];
    let alive: [u8; 12] = [71, 69, 84, 32, 47, 104, 101, 97, 108, 116, 104, 122];
    proof {
        assert(ready@ =~= ready_probe());
        assert(alive@ =~= alive_probe());
    }
    if asks_for(request, &ready) {
        linked
    } else {
        asks_for(request, &alive)
    }
}

/// What a probe is answered.
pub fn response(ok: bool) -> (r: &'static str)
    ensures
        r@ == if ok {
            "HTTP/1.1 200 OK\r\ncontent-length: 2\r\n\r\nok"@
        } else {
            "HTTP/1.1 503 Service Unavailable\r\ncontent-length: 0\r\n\r\n"@
        },
{
    if ok {
        "HTTP/1.1 200 OK\r\ncontent-length: 2\r\n\r\nok"
    } else {
        "HTTP/1.1 503 Service Unavailable\r\ncontent-length: 0\r\n\r\n"
    }
}

/// The two probes are GET requests for /healthz and /readyz, and a request is for one where it begins
/// with it.
pub proof fn the_probes_are_told_apart(request: Seq<u8>)
    ensures
        asks(request, alive_probe()) ==> request.len() >= 12 && request[5] == 104,
        asks(request, ready_probe()) ==> request.len() >= 11 && request[5] == 114,
        !(asks(request, alive_probe()) && asks(request, ready_probe())),
{
    if asks(request, alive_probe()) {
        assert(request.take(12)[5] == alive_probe()[5]);
    }
    if asks(request, ready_probe()) {
        assert(request.take(11)[5] == ready_probe()[5]);
    }
}

/// A probe is a request for its own path, letter by letter.
pub proof fn a_probe_asks_for_its_path(i: int)
    ensures
        alive_probe().len() == "GET /healthz"@.len(),
        ready_probe().len() == "GET /readyz"@.len(),
        0 <= i < alive_probe().len() ==> alive_probe()[i] as int == "GET /healthz"@[i] as int,
        0 <= i < ready_probe().len() ==> ready_probe()[i] as int == "GET /readyz"@[i] as int,
{
    reveal_strlit("GET /healthz");
    reveal_strlit("GET /readyz");
}

} // verus!
