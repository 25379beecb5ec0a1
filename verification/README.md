# verigov

Release governance for software projects, as a verified library.

Stakeholders of a project hold a role and an escrowed stake of `VGOV`. A Core Developer proposes a
release with a build attestation that a Build Service of the project signed. The stakeholders vote,
weighted by stake inside each role, and a proposal is accepted if and only if, for every required
role `r`,

    sum(stake of aye voters in r) / sum(stake in r) >= tau_r

Votes may be changed until enactment: what is enacted is the tally that stands then. After a delay
the accepted binary hash is appended to the project's Official Release Log. A rebuild that comes out
differently, reported by any other stakeholder while the proposal is open, rejects the proposal and burns `sigma_neg` of the Build Service's stake. Its votes on open proposals weigh so
much less from then on.

## Layout

- `src/pallet/` - the executable protocol: one file per kind of request, and the storage in
  `mod.rs`.
- `src/model.rs` - the protocol as functions on a mathematical state. Every request of the pallet is
  proved to end as these functions say: with success in the state that they give, or with their
  error in the state in which the request was made.
- `src/invariants.rs`, `src/laws/` - what follows, for every request in every state: the acceptance
  rule, the life cycle of a proposal, the append-only log, exact tallies, escrowed stakes and
  bonds, slashes, and who may do what.
- `src/config.rs` - what a runtime supplies: account identifiers, numbers, signatures, the record of
  events and the token, with the facts about the token that the laws rely on.
- `src/bounded.rs`, `src/perbill.rs` - the calls into `frame_support` and `sp_runtime`.
- `src/storage.rs`, `src/number.rs`, `src/sums.rs`, `src/types.rs` - maps, saturating numbers, sums
  over finite sets, and the records.
- `tests/` - the worked example and the edge cases, on an in-memory ledger and on a token that has
  its holds from `frame_support`.
- `app/` - the same protocol as a FRAME pallet: storage, calls, events and the block hook around
  the library.

## Limits

Balances, identifiers and log indices saturate at the ends of their ranges. The laws on sums and
identifiers hold as long as a request stays within them; `State::has_room` says when that is.

The quorums are looked at when a vote is counted and at the enactment block. A slash lowers the
stake of the Build Services and the weight of their votes on open proposals, so it can meet or break
a quorum of theirs in between. The next vote on the proposal, or its enactment, takes notice.
