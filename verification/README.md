# sip

A parser for SIP (RFC 3261) messages, written in Verus and verified.

Every parser reads from a byte cursor (`scanner::Bytes`) and is specified by
a spec function over the input bytes and the start position: the spec gives
the value read (or the error) and the position where reading stops, and the
parser's contract says it returns exactly that.

- `chars`, `scanner`, `text`, `number`: character classes, the cursor,
  UTF-8 text of byte ranges, decimal numbers.
- `params`: `;name=value` parameters and their collection.
- `host`, `ipv6`: host names, IPv4 and IPv6 addresses, ports.
- `parser`: the `SIP/2.0` version, transports, line breaks.
- `uri`: SIP and SIPS URIs, name-addrs.
- `headers`: Content-Type, Date, Organization, Priority, Record-Route, Via,
  credentials and challenges, the header list of a message.
- `request`: request lines and requests.
- `laws`: properties that span several functions.

`app/` holds what the verified library cannot: q-values, which are floats.
