# siphon-sigtran

A SIGTRAN/SS7 signalling node, written in Verus: a signal transfer point that
routes between M3UA, M2PA and SUA peers, translates global titles, routes on the
decoded MAP/CAP layer, screens transiting ISUP, and terminates TCAP dialogues for
scripts. What each function of the library does is stated in its contract and
proved; the properties that span functions stand beside them as public proof
functions whose names begin with `law_`.

## Layout

- `src/` is the verified library.
  - `config`: the configuration, its defaults and its validation.
  - `point_code`, `text`, `sorted_map`: point codes, text and ordered maps.
  - `mtp3`: the route resolver, with availability from management events.
  - `sccp`: messages, global-title translation, E.214/E.164 conversion.
  - `content`: content rules over a decoded MAP/CAP view.
  - `isup`: screening of transiting ISUP.
  - `tenant`, `routing`: routing domains and the routing decision.
  - `transaction`, `dialogue`: TCAP messages and the dialogue engine.
  - `transport`: framing, the association registry, the state machines of
    application server processes and links, and the per-message pipeline.
  - `metrics`: counters, gauges and the text exposition.
  - `python`: what the script surface computes, apart from the interpreter.
- `app/` is ordinary Rust around it: YAML, SCTP sockets and tasks, and the
  classes that scripts see.
- `tests/` run the library together with the protocol codecs it calls.

## What is taken on trust

The wire codecs (`m3ua`, `m2pa`, `mtp3`, `sccp`, `sua`, `tcap`, `itu-isup`, and
the MAP, CAP and INAP argument types over `rasn`) are called, not proved. Each call
stands behind a small function marked `external_body`, whose doc comment names the
outside function and says what its contract claims. Where the outcome takes pages
to state it has a name, a spec function without a body, and the contracts above
speak of that name.
