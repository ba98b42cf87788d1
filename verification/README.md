# renderer

The verified core of a small OpenGL 4.6 forward renderer, written in Verus.

`src/` is the library. It keeps the records of GPU resources (buffers,
vertex arrays, textures, framebuffers, meshes) and decides, with proved
contracts, everything about them that is not a driver call: vertex layouts,
mip counts, texture and sampler formats, render-state commands, attachment
slots. It also holds the shader preprocessor (stages, includes, render-state
directives), the OBJ loader, keyboard and mouse state, the scene arena with
its material and shader rules, the order in which a glTF document's nodes are
loaded, the cubemap face selection, the frame's draw lists and the light
buffer layout. Laws that span functions are public proof functions named
`law_*`.

`app/` is the program around it: the SDL2 window and event loop, the imgui
panel, file reading, glTF import, every OpenGL call, and the floating-point
math (transforms, camera, culling, ambient occlusion kernels).

`tests/` exercises the library on concrete inputs.
