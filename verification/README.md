# voxcpm_rs

A VoxCPM text-to-speech service whose decision logic is verified with Verus.

`src/` is the verified library:

- `text` — sentence splitting for chunked synthesis, and the spelling-out of
  multi-character Chinese tokens.
- `prompt`, `generation` — the model's input sequence and masks, the padding of a
  reference recording, and the stop/retry decisions of the generation loop.
- `vae_layout`, `audiovae`, `audio_vae_v2` — the audio VAE configurations and the
  layer layouts they expand to, with proofs that the layers chain and that audio
  of a whole number of hops encodes to one latent frame per hop.
- `voice_registry`, `openai` — the voice registry, voice ids, and the checks and
  plans of the HTTP API.
- `wav` — WAV headers and files, 16-bit PCM, stream blocks and cross-fade plans.
- `device`, `paths`, `convert` — device and model-directory choice, paths, and the
  weight converter's config edits and key renamings.

`app/` holds the programs around it (the HTTP server, the command-line
synthesiser and the weight converter) and the floating-point tensor code of the
model, built on Burn and LibTorch.
