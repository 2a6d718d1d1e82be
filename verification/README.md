# backend

The business rules of the Vigo quick-commerce backend, verified with Verus:
bills and delivery fees, rupee formatting, slugs, Indian mobile numbers, catalog
price checks, image sniffing, the order state machine, carts and checkout,
Razorpay webhook authentication and decisions, picking (natural bin order, pick
lists, packing), dispatch waves, and the rider handover rules.

- `src/` is the verified library. Each module states its rules as spec
  functions and proves the executable code against them; laws that span
  several functions are public proof functions (`lemma_*`).
- `tests/` runs the library on concrete values.
- `app/` is a small command-line front end: reading the configuration from the
  environment, writing uploaded images to disk, parsing webhook JSON, and the
  floating-point delivery estimate.

The outside crates the library calls (`hex`, `hmac`/`sha2`, `uuid`) sit behind
small trusted wrappers in `src/payments.rs` and `src/order.rs`, and two std
calls (`String::push`, `str::trim`) behind wrappers in `src/text.rs`; each has a
doc comment saying what it assumes.
