# merkle-tree-example

Licence statements proved with Groth16 over BN254: a holder shows that dates committed in a
Pedersen Merkle tree satisfy an age or expiry condition, without revealing them.

- `src/` is the verified library: BN254 and BLS12-381 scalars as plain limbs (`field`,
  `bls_field`), hexadecimal scalar parsing (`scalar`), the Merkle configuration (`merkle`), the
  circuits' values, public input order and the conditions they enforce (`circuits`, `did`),
  and key file paths (`files`). The age licence is written over BLS12-381, the Merkle and DID
  circuits over BN254.
- `app/` holds the arkworks side: the Pedersen windows and Merkle tree configurations, the
  R1CS constraint generation of each circuit, native witness checks that feed the library's
  condition checks, key file reading and the C interface.
