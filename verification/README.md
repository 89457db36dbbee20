# k3_hera

The software around an AI accelerator that user programs drive through shared memory:
graphs of kernels are built and frozen in user space, submitted over a pair of message
channels, put in a line by a scheduler, and run node by node by half-precision kernels.
`src/` is a library verified with Verus, but for six wrappers around outside calls that
are taken on trust; `app/` is the ordinary Rust around it.

## The library

| Module | What it holds |
| --- | --- |
| `uabi` | The binary interface: typed fields, tensor and kernel descriptions, attributes, graph blobs, errors and the version stamp |
| `uabi::dag`, `uabi::builder`, `uabi::graph` | Graphs: adding kernels without closing a cycle, freezing, and parsing what was frozen |
| `runtime` | The user side: tensors, building the channels step by step, submitting and waiting, and the request format of the ONNX Runtime provider |
| `sched` | The kernel side: one line for each graph, one bounded queue for each core, and what a worker does |
| `backend` | The kernels: checking a call, finding elements by shape and stride, and computing |
| `story` | A small language model: its file format, tokenizer, plan of kernels, sampling and session |
| `bridge` | Requests of the ggml backend |
| `detect`, `picture` | Boxes around detected objects, and pictures as the model takes them |
| `bytes`, `shape`, `text`, `memory` | What the others share |

Floating-point numbers are bit patterns in the library. Functions that compute with them
take the arithmetic as arguments, and their contracts say which operation was applied to
which elements, and in which order.

The trusted wrappers are marked `external_body`: three on messages of the `ov_channels`
crate in `runtime::message`, UTF-8 decoding in `text`, the address of a buffer in `memory`,
and the resizing of a picture by the `image` crate in `picture`. The type of those messages
is declared there too, with names for its kind and payload, and what resizing gives has a
name.

## The programs

`app/` holds the arithmetic, the vector loops of the board, the device, the scheduler on
threads of one process, the C entry points for ggml and for ONNX Runtime, and four programs:

- `story` runs the language model on the device,
- `detect` runs a detection model and draws boxes,
- `matmul` compares the paths of a small matrix product, with `--local` on threads,
- `stamp` computes the version of the binary interface from its sources.
